//! What the picker is for: what is picked is what is opened, created or ended.

use crate::bootstrap::ShellType;
use crate::popup::{
    acted, answered, is_busy, keys_find_their_incarnation, picker_rows, position_of, ActionView,
    OpenPlanView, PendingView, PickerEvent, PickerRowView, PickerStepView, PopupView,
    WorkspaceKeyView,
};
use crate::proto::{PersistentWorkspaceResponseView, PersistentWorkspaceView};
use vstd::prelude::*;
use vstd::string::*;

verus! {

/// The workspace has this identity and this generation.
pub open spec fn is_that(workspace: PersistentWorkspaceView, key: WorkspaceKeyView) -> bool {
    workspace.workspace_id == key.id && workspace.generation == key.generation
}

/// The first workspace of a list with this key.
pub open spec fn first_with(
    list: Seq<PersistentWorkspaceView>,
    key: WorkspaceKeyView,
    i: int,
) -> bool {
    &&& 0 <= i < list.len()
    &&& is_that(list[i], key)
    &&& forall|j: int| 0 <= j < i ==> !is_that(#[trigger] list[j], key)
}

/// The shell that a workspace was created with, if it can be opened natively.
pub open spec fn shell_is(workspace: PersistentWorkspaceView, shell_type: ShellType) -> bool {
    workspace.shell == Some(
        match shell_type {
            ShellType::Bash => "bash"@,
            ShellType::Zsh => "zsh"@,
            ShellType::Fish => "fish"@,
            ShellType::PowerShell => ""@,
        },
    )
}

proof fn lemma_first(list: Seq<PersistentWorkspaceView>, key: WorkspaceKeyView, i: int)
    requires
        first_with(list, key, i),
    ensures
        position_of(list, key) == Some(i),
    decreases list.len(),
{
    let front = list.drop_last();
    keys_find_their_incarnation(front, key);
    if i < front.len() {
        assert forall|j: int| 0 <= j < i implies !is_that(#[trigger] front[j], key) by {
            assert(!is_that(list[j], key));
        }
        assert(front[i] == list[i]);
        lemma_first(front, key, i);
    } else {
        if position_of(front, key) is Some {
            let k = position_of(front, key)->Some_0;
            assert(list[k] == front[k]);
            assert(!is_that(list[k], key));
        }
    }
}

proof fn lemma_shells()
    ensures
        "bash"@ != "zsh"@,
        "bash"@ != "fish"@,
        "zsh"@ != "fish"@,
        "bash"@.len() > 0,
        "zsh"@.len() > 0,
        "fish"@.len() > 0,
        ""@.len() == 0,
{
    reveal_strlit("bash");
    reveal_strlit("zsh");
    reveal_strlit("fish");
    reveal_strlit("");
    assert("bash"@[0] == 'b' && "zsh"@[0] == 'z' && "fish"@[0] == 'f');
}

/// A workspace can be opened from a picker: it is not the current one, and there is an
/// owner of the connection or a recipe to make one.
pub open spec fn can_open(p: PopupView, key: WorkspaceKeyView) -> bool {
    &&& p.connection matches Some(c)
    &&& c.current_workspace != Some(key)
    &&& c.has_owner || c.has_recipe
}

/// What is opened for a workspace: exactly that incarnation, in its own shell, under the
/// owner that is there or under a new one.
pub open spec fn opens(
    p: PopupView,
    workspace: PersistentWorkspaceView,
    plan: OpenPlanView,
) -> bool {
    &&& plan.workspace_id == workspace.workspace_id
    &&& plan.generation == workspace.generation
    &&& shell_is(workspace, plan.shell_type)
    &&& p.connection matches Some(c)
    &&& plan.new_owner == !c.has_owner
}

/// Selecting a key opens exactly the workspace with that key, or none. A listed workspace
/// with a durable shell that can be opened is opened; the current one closes the picker;
/// one without such a shell is refused; one that is not listed does nothing.
pub proof fn selection_opens_what_was_selected(
    p: PopupView,
    key: WorkspaceKeyView,
    connected: bool,
    scripts: Result<(Seq<u8>, Seq<u8>), Seq<char>>,
    retention: i32,
    id: Seq<char>,
    i: int,
    shell_type: ShellType,
)
    requires
        !is_busy(p),
    ensures
        ({
            let (next, step) = acted(
                p,
                ActionView::Select(key),
                connected,
                scripts,
                retention,
                id,
            );
            &&& step matches PickerStepView::Open(plan) ==> {
                &&& plan.workspace_id == key.id
                &&& plan.generation == key.generation
                &&& exists|k: int|
                    #![trigger p.workspaces[k]]
                    0 <= k < p.workspaces.len() && is_that(p.workspaces[k], key) && opens(
                        p,
                        p.workspaces[k],
                        plan,
                    )
            }
            &&& !(step is Request)
            &&& next.workspaces == p.workspaces
            &&& first_with(p.workspaces, key, i) && !(shell_type is PowerShell) && shell_is(
                p.workspaces[i],
                shell_type,
            ) ==> {
                &&& can_open(p, key) ==> (step matches PickerStepView::Open(plan) && opens(
                    p,
                    p.workspaces[i],
                    plan,
                ) && plan.shell_type == shell_type)
                &&& p.connection is Some && p.connection->Some_0.current_workspace == Some(key)
                    ==> step == PickerStepView::Emit(PickerEvent::Close)
            }
            &&& (forall|k: int|
                0 <= k < p.workspaces.len() ==> !is_that(#[trigger] p.workspaces[k], key)) ==> (
            next,
                step,
            ) == (p, PickerStepView::Nothing)
        }),
{
    lemma_shells();
    keys_find_their_incarnation(p.workspaces, key);
    if first_with(p.workspaces, key, i) {
        lemma_first(p.workspaces, key, i);
    }
    if let Some(k) = position_of(p.workspaces, key) {
        assert(is_that(p.workspaces[k], key));
    }
}

/// The enter key opens the workspace of the selected row as a click on it does, and
/// creates one from the row behind the list.
pub proof fn enter_takes_the_selected_row(
    p: PopupView,
    connected: bool,
    scripts: Result<(Seq<u8>, Seq<u8>), Seq<char>>,
    retention: i32,
    id: Seq<char>,
)
    ensures
        p.selected < p.workspaces.len() ==> {
            let w = p.workspaces[p.selected as int];
            acted(p, ActionView::Enter, connected, scripts, retention, id) == acted(
                p,
                ActionView::Select(
                    WorkspaceKeyView { id: w.workspace_id, generation: w.generation },
                ),
                connected,
                scripts,
                retention,
                id,
            )
        },
        p.selected == p.workspaces.len() ==> acted(
            p,
            ActionView::Enter,
            connected,
            scripts,
            retention,
            id,
        ) == acted(p, ActionView::New, connected, scripts, retention, id),
{
}

/// The arrow keys move the selection by one row and never off the rows; nothing else
/// changes.
pub proof fn arrows_move_the_selection(
    p: PopupView,
    connected: bool,
    scripts: Result<(Seq<u8>, Seq<u8>), Seq<char>>,
    retention: i32,
    id: Seq<char>,
)
    requires
        p.selected <= p.workspaces.len() < usize::MAX,
    ensures
        ({
            let up = acted(p, ActionView::Up, connected, scripts, retention, id).0;
            let down = acted(p, ActionView::Down, connected, scripts, retention, id).0;
            &&& up == (PopupView { selected: up.selected, ..p })
            &&& down == (PopupView { selected: down.selected, ..p })
            &&& p.selected > 0 ==> up.selected == p.selected - 1
            &&& p.selected == 0 ==> up.selected == 0
            &&& p.selected < p.workspaces.len() ==> down.selected == p.selected + 1
            &&& p.selected == p.workspaces.len() ==> down.selected == p.selected
        }),
{
}

/// A request that creates a workspace: it carries the identity, the scripts and the
/// retention that it was given, for the shell of the connection.
pub proof fn creation_asks_for_what_was_given(
    p: PopupView,
    connected: bool,
    init: Seq<u8>,
    bootstrap: Seq<u8>,
    retention: i32,
    id: Seq<char>,
)
    requires
        !is_busy(p),
        p.connection is Some,
        connected,
        !(p.connection->Some_0.shell is PowerShell),
    ensures
        ({
            let (next, step) = acted(
                p,
                ActionView::New,
                connected,
                Ok((init, bootstrap)),
                retention,
                id,
            );
            &&& next.pending == PendingView::Create(id)
            &&& step matches PickerStepView::Request(request) && {
                &&& request.protocol_version == 1
                &&& request.operation == 1
                &&& request.workspace_id == id
                &&& request.generation.len() == 0
                &&& request.working_directory is None
                &&& request.terminal is None
                &&& request.history_retention == Some(retention)
                &&& request.bootstrap matches Some(profile) && {
                    &&& profile.init_script == init
                    &&& profile.bootstrap_script == bootstrap
                    &&& profile.shell == (match p.connection->Some_0.shell {
                        ShellType::Bash => "bash"@,
                        ShellType::Zsh => "zsh"@,
                        _ => "fish"@,
                    })
                }
            }
        }),
{
}

/// The daemon's answer can be used by the picker.
pub open spec fn is_usable(r: PersistentWorkspaceResponseView) -> bool {
    &&& r.protocol_version == 1
    &&& r.management_supported
    &&& r.terminal_transport_supported
    &&& r.block_replay_supported
    &&& r.error is None
}

/// A workspace that was created is opened: the one with the identity that was asked for.
/// Any other answer opens nothing and is shown as an error.
pub proof fn what_was_created_is_opened(
    p: PopupView,
    response: PersistentWorkspaceResponseView,
    connected: bool,
    id: Seq<char>,
    shell_type: ShellType,
)
    requires
        p.pending == PendingView::Create(id),
    ensures
        ({
            let (next, step) = answered(p, Ok(response), connected);
            &&& next.pending is Nothing
            &&& step matches PickerStepView::Open(plan) ==> {
                &&& is_usable(response)
                &&& response.workspaces.len() > 0
                &&& response.workspaces[0].workspace_id == id
                &&& plan.workspace_id == id
                &&& plan.generation == response.workspaces[0].generation
            }
            &&& is_usable(response) && response.workspaces.len() > 0
                && response.workspaces[0].workspace_id == id && !(shell_type is PowerShell)
                && shell_is(response.workspaces[0], shell_type) && can_open(
                p,
                WorkspaceKeyView { id, generation: response.workspaces[0].generation },
            ) ==> (step matches PickerStepView::Open(plan) && opens(
                p,
                response.workspaces[0],
                plan,
            ) && plan.shell_type == shell_type)
            &&& !is_usable(response) || response.workspaces.len() == 0
                || response.workspaces[0].workspace_id != id ==> next.error is Some && step
                is Redraw
        }),
{
    lemma_shells();
}

/// A listing is shown as the daemon gave it, and the selection stays on the rows. An
/// answer that cannot be used leaves the list as it is and is shown.
pub proof fn listings_are_shown(
    p: PopupView,
    response: PersistentWorkspaceResponseView,
    connected: bool,
)
    requires
        p.pending is List,
        response.workspaces.len() <= usize::MAX,
    ensures
        ({
            let (next, step) = answered(p, Ok(response), connected);
            &&& next.pending is Nothing
            &&& next.connection == p.connection
            &&& next.confirm_termination == p.confirm_termination
            &&& is_usable(response) ==> {
                &&& next.workspaces == response.workspaces
                &&& next.error == p.error
                &&& next.selected <= next.workspaces.len()
                &&& p.selected <= next.workspaces.len() ==> next.selected == p.selected
            }
            &&& !is_usable(response) ==> next.workspaces == p.workspaces && next.error is Some
                && next.selected == p.selected
        }),
{
}

/// An error of the daemon is shown with its code and its message.
pub proof fn errors_are_shown(
    p: PopupView,
    response: PersistentWorkspaceResponseView,
    connected: bool,
)
    requires
        is_busy(p),
        response.protocol_version == 1,
        response.management_supported,
        response.terminal_transport_supported,
        response.block_replay_supported,
        response.error is Some,
    ensures
        ({
            let (next, step) = answered(p, Ok(response), connected);
            let error = response.error->Some_0;
            &&& next.error == Some(error.code + ": "@ + error.message)
            &&& next.pending is Nothing
            &&& next.workspaces == p.workspaces
            &&& !(step is Open) && !(step is ExitTerminal) && !(step is Request)
        }),
{
}

/// After a workspace was ended its terminal is closed if it was the current one; else the
/// list is asked for anew. A refusal ends nothing, and has to be confirmed again.
pub proof fn the_end_of_a_workspace_is_shown(
    p: PopupView,
    response: PersistentWorkspaceResponseView,
    connected: bool,
    current: bool,
)
    requires
        p.pending == (PendingView::Terminate { current }),
    ensures
        ({
            let (next, step) = answered(p, Ok(response), connected);
            &&& next.confirm_termination is None
            &&& step is ExitTerminal <==> is_usable(response) && current
            &&& is_usable(response) && !current && p.connection is Some && connected ==> {
                &&& next.pending is List
                &&& step matches PickerStepView::Request(request) && request.operation == 2
                    && request.workspace_id.len() == 0 && request.generation.len() == 0
            }
            &&& !is_usable(response) ==> next.error is Some && next.pending is Nothing
        }),
{
}

/// A workspace that is ended is called the current one if and only if the terminal is
/// attached to exactly that incarnation.
pub proof fn only_its_own_terminal_is_closed(
    p: PopupView,
    key: WorkspaceKeyView,
    connected: bool,
    scripts: Result<(Seq<u8>, Seq<u8>), Seq<char>>,
    retention: i32,
    id: Seq<char>,
)
    ensures
        ({
            let (next, step) = acted(
                p,
                ActionView::Terminate(key),
                connected,
                scripts,
                retention,
                id,
            );
            step is Request ==> (next.pending matches PendingView::Terminate { current } && (current
                <==> p.connection is Some && p.connection->Some_0.current_workspace == Some(key)))
        }),
{
}

/// A refresh asks for the list of workspaces, and for nothing else.
pub proof fn a_refresh_asks_for_the_list(
    p: PopupView,
    connected: bool,
    scripts: Result<(Seq<u8>, Seq<u8>), Seq<char>>,
    retention: i32,
    id: Seq<char>,
)
    requires
        !is_busy(p),
    ensures
        ({
            let (next, step) = acted(p, ActionView::Refresh, connected, scripts, retention, id);
            &&& p.connection is Some && connected ==> {
                &&& next.pending is List
                &&& next.error is None
                &&& next.workspaces == p.workspaces
                &&& step matches PickerStepView::Request(request) && {
                    &&& request.protocol_version == 1
                    &&& request.operation == 2
                    &&& request.workspace_id.len() == 0
                    &&& request.generation.len() == 0
                    &&& request.terminal is None && request.bootstrap is None
                    &&& request.working_directory is None && request.history_retention is None
                }
            }
            &&& !(p.connection is Some && connected) ==> next.error is Some && step is Redraw
                && next.pending == p.pending
        }),
{
}

// ---------------------------------------------------------------------------
// The rows
// ---------------------------------------------------------------------------

/// What the title of a workspace says: the words that are in it.
pub open spec fn title_tells(w: PersistentWorkspaceView, current: bool, title: Seq<char>) -> bool {
    let word = if w.exited {
        "exited"@
    } else if w.activity == Some("running"@) || w.activity == Some("idle"@) || w.activity == Some(
        "starting"@,
    ) {
        w.activity->Some_0
    } else {
        "status unknown"@
    };
    let shell = match w.shell {
        Some(shell) => shell,
        None => "legacy"@,
    };
    exists|storage: Seq<char>|
        title == (if current {
            "Current: "@
        } else {
            ""@
        }) + shell + " "@ + w.window_id + " | "@ + word + "\n"@ + #[trigger] storage_label(
            w.history_storage_bytes,
            storage,
        )
}

/// The label of a size: unknown, or some number of mebibytes, or of gibibytes from one of
/// these on.
pub open spec fn storage_label(bytes: Option<u64>, number: Seq<char>) -> Seq<char> {
    match bytes {
        None => "History storage unavailable"@,
        Some(n) => if n < 0x4000_0000 {
            "History: "@ + number + " MiB on remote disk"@
        } else {
            "History: "@ + number
                + " GiB on remote disk. Delete unused workspaces to free space."@
        },
    }
}

/// Every workspace of the list has one row, in the order of the list; its row carries its
/// key, says what is known of it, and is marked if and only if it is selected. The row
/// behind them creates a workspace, or says that a request is under way.
pub proof fn every_workspace_has_its_row(p: PopupView, i: int)
    requires
        0 <= i < p.workspaces.len(),
    ensures
        ({
            let rows = picker_rows(p);
            let w = p.workspaces[i];
            let above = rows.len() - p.workspaces.len() - 2;
            let current = p.connection is Some && p.connection->Some_0.current_workspace == Some(
                WorkspaceKeyView { id: w.workspace_id, generation: w.generation },
            );
            &&& above == 1 + (if p.error is Some {
                1int
            } else {
                0
            }) + (if p.confirm_termination is Some {
                1int
            } else {
                0
            })
            &&& rows[above + i] matches PickerRowView::Workspace(title, selected, key) && {
                &&& key.id == w.workspace_id
                &&& key.generation == w.generation
                &&& selected == (p.selected == i)
                &&& title_tells(w, current, title)
            }
            &&& p.error matches Some(error) ==> rows[1] == PickerRowView::Text(error)
            &&& rows[rows.len() - 2] == PickerRowView::NewWorkspace(
                if p.pending is Nothing {
                    "+ New workspace"@
                } else {
                    "Working..."@
                },
            )
            &&& rows.last() is Refresh
        }),
{
    let rows = picker_rows(p);
    let w = p.workspaces[i];
    let storage = match w.history_storage_bytes {
        Some(n) => crate::status::units_text(
            n,
            if n >= 0x4000_0000 {
                crate::status::GIB
            } else {
                crate::popup::MIB
            },
        ),
        None => Seq::empty(),
    };
    assert(storage_label(w.history_storage_bytes, storage) == crate::popup::history_text(
        w.history_storage_bytes,
    ));
}

/// The sizes of a list's histories are told in their own unit, to a tenth.
pub proof fn sizes_are_told_to_a_tenth(bytes: u64, unit: u64)
    requires
        unit == 0x10_0000 || unit == 0x4000_0000,
        bytes < 0x20_0000_0000_0000,
    ensures
        exists|tenths: nat|
            #![trigger crate::number::decimal_text(tenths / 10)]
            crate::status::units_text(bytes, unit) == crate::number::decimal_text(tenths / 10)
                + "."@ + crate::number::decimal_text(tenths % 10) && 2 * (tenths * unit - bytes * 10)
                <= unit && 2 * (bytes * 10 - tenths * unit) <= unit,
{
    let n = bytes * 10;
    let d = unit as int;
    let tenths = crate::status::rounded(n, d);
    assert(crate::status::nearest(bytes) == bytes) by {
        assert(crate::status::rounded(bytes as int, 1) == bytes);
    }
    vstd::arithmetic::div_mod::lemma_fundamental_div_mod(n, d);
    vstd::arithmetic::div_mod::lemma_div_pos_is_pos(n, d);
    assert(d * (n / d) == (n / d) * d) by (nonlinear_arith);
    assert((n / d + 1) * d == (n / d) * d + d) by (nonlinear_arith);
    let t = tenths as nat;
    assert(crate::number::decimal_text(t / 10) == crate::number::decimal_text((tenths / 10) as nat));
}

/// A response of a build that does not support all of this is refused, whatever it says, and
/// so is a request that failed; either is shown, and the list stays as it was.
pub proof fn other_builds_are_refused(
    p: PopupView,
    response: Result<PersistentWorkspaceResponseView, Seq<char>>,
    connected: bool,
)
    requires
        is_busy(p),
        response matches Ok(r) ==> r.protocol_version != 1 || !r.management_supported
            || !r.terminal_transport_supported || !r.block_replay_supported,
    ensures
        ({
            let (next, step) = answered(p, response, connected);
            &&& response is Ok ==> next.error == Some(
                "This SSH extension does not support persistent workspaces. Install the matching custom build."@,
            )
            &&& response matches Err(message) ==> next.error == Some(message)
            &&& next.pending is Nothing
            &&& next.workspaces == p.workspaces
            &&& !(step is Open) && !(step is ExitTerminal) && !(step is Request)
        }),
{
}

} // verus!
