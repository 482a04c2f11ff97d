//! The list of workspaces from which a user picks one. No command is typed into a
//! pane.

use crate::bootstrap::{profile_for_shell, shell_name, ShellType};
use crate::host::outcome;
use crate::local::LocalError;
use crate::proto::{
    PersistentShellBootstrapView, PersistentWorkspace, PersistentWorkspaceOperation,
    PersistentWorkspaceRequest, PersistentWorkspaceRequestView, PersistentWorkspaceResponse,
    PersistentWorkspaceResponseView, PersistentWorkspaceView,
};
use crate::status::{in_units, units_text, GIB};
use crate::text;
use crate::workspace::sessions::is_token;
use vstd::prelude::*;
use vstd::string::*;

pub mod laws;

verus! {

pub const MIB: u64 = 1024 * 1024;

/// One incarnation of a workspace.
#[derive(Debug)]
pub struct WorkspaceKey {
    pub id: String,
    pub generation: String,
}

#[verifier::ext_equal]
pub struct WorkspaceKeyView {
    pub id: Seq<char>,
    pub generation: Seq<char>,
}

impl DeepView for WorkspaceKey {
    type V = WorkspaceKeyView;

    open spec fn deep_view(&self) -> WorkspaceKeyView {
        WorkspaceKeyView { id: self.id@, generation: self.generation@ }
    }
}

/// The key of a workspace in a list.
pub open spec fn key_of(workspace: PersistentWorkspaceView) -> WorkspaceKeyView {
    WorkspaceKeyView { id: workspace.workspace_id, generation: workspace.generation }
}

impl WorkspaceKey {
    /// The key of a workspace in a list.
    pub fn of(workspace: &PersistentWorkspace) -> (key: WorkspaceKey)
        ensures
            key.deep_view() == key_of(workspace.deep_view()),
    {
        WorkspaceKey {
            id: workspace.workspace_id.clone(),
            generation: workspace.generation.clone(),
        }
    }

    pub fn copy(&self) -> (key: WorkspaceKey)
        ensures
            key.deep_view() == self.deep_view(),
    {
        WorkspaceKey { id: self.id.clone(), generation: self.generation.clone() }
    }

    /// Whether two keys are of the same incarnation.
    pub fn same(&self, other: &WorkspaceKey) -> (r: bool)
        ensures
            r == (self.deep_view() == other.deep_view()),
    {
        text::same(self.id.as_str(), other.id.as_str()) && text::same(
            self.generation.as_str(),
            other.generation.as_str(),
        )
    }
}

/// The place of the first workspace with this key in a list.
pub open spec fn position_of(
    list: Seq<PersistentWorkspaceView>,
    key: WorkspaceKeyView,
) -> Option<int>
    decreases list.len(),
{
    if list.len() == 0 {
        None
    } else {
        match position_of(list.drop_last(), key) {
            Some(i) => Some(i),
            None => if key_of(list.last()) == key {
                Some(list.len() - 1)
            } else {
                None
            },
        }
    }
}

fn position(list: &Vec<PersistentWorkspace>, key: &WorkspaceKey) -> (r: Option<usize>)
    ensures
        match (r, position_of(list.deep_view(), key.deep_view())) {
            (Some(i), Some(k)) => i == k && i < list@.len() && key_of(list@[i as int].deep_view())
                == key.deep_view(),
            (None, None) => true,
            _ => false,
        },
{
    let ghost model = list.deep_view();
    let mut i: usize = 0;
    assert(model.take(0) =~= Seq::empty());
    while i < list.len()
        invariant
            model == list.deep_view(),
            i <= list@.len(),
            position_of(model.take(i as int), key.deep_view()) is None,
        decreases list@.len() - i,
    {
        assert(model.take(i + 1).drop_last() =~= model.take(i as int));
        assert(model.take(i + 1).last() == list@[i as int].deep_view());
        if key.same(&WorkspaceKey::of(&list[i])) {
            proof {
                lemma_position_found(model, key.deep_view(), i + 1);
            }
            return Some(i);
        }
        i += 1;
    }
    assert(model.take(model.len() as int) =~= model);
    None
}

proof fn lemma_position_found(list: Seq<PersistentWorkspaceView>, key: WorkspaceKeyView, n: int)
    requires
        0 <= n <= list.len(),
        position_of(list.take(n), key) is Some,
    ensures
        position_of(list, key) == position_of(list.take(n), key),
    decreases list.len() - n,
{
    if n == list.len() {
        assert(list.take(n) =~= list);
    } else {
        assert(list.take(n + 1).drop_last() =~= list.take(n));
        lemma_position_found(list, key, n + 1);
    }
}

/// The workspace with this key in a list. Another incarnation of it is not found.
pub fn find_workspace<'a>(list: &'a Vec<PersistentWorkspace>, key: &WorkspaceKey) -> (r: Option<
    &'a PersistentWorkspace,
>)
    ensures
        match (r, position_of(list.deep_view(), key.deep_view())) {
            (Some(found), Some(i)) => found.deep_view() == list.deep_view()[i],
            (None, None) => true,
            _ => false,
        },
{
    match position(list, key) {
        Some(i) => Some(&list[i]),
        None => None,
    }
}

/// What a workspace's shell is doing.
pub open spec fn status_word(exited: bool, activity: Option<Seq<char>>) -> Seq<char> {
    if exited {
        "exited"@
    } else if activity == Some("running"@) {
        "running"@
    } else if activity == Some("idle"@) {
        "idle"@
    } else if activity == Some("starting"@) {
        "starting"@
    } else {
        "status unknown"@
    }
}

/// What a workspace's shell is doing, as far as its hooks have said.
pub fn workspace_status(workspace: &PersistentWorkspace) -> (word: &'static str)
    ensures
        word@ == status_word(workspace.exited, workspace.activity.deep_view()),
{
    if workspace.exited {
        "exited"
    } else if text::is_text(&workspace.activity, "running") {
        "running"
    } else if text::is_text(&workspace.activity, "idle") {
        "idle"
    } else if text::is_text(&workspace.activity, "starting") {
        "starting"
    } else {
        "status unknown"
    }
}

/// How much a workspace's history occupies; what is not known is not called zero.
pub open spec fn history_text(bytes: Option<u64>) -> Seq<char> {
    match bytes {
        Some(n) => if n >= GIB {
            "History: "@ + units_text(n, GIB)
                + " GiB on remote disk. Delete unused workspaces to free space."@
        } else {
            "History: "@ + units_text(n, MIB) + " MiB on remote disk"@
        },
        None => "History storage unavailable"@,
    }
}

/// How much a workspace's history occupies.
pub fn history_label(bytes: Option<u64>) -> (label: String)
    ensures
        label@ == history_text(bytes),
{
    match bytes {
        Some(n) => {
            let mut label = "History: ".to_owned();
            if n >= GIB {
                label.append(in_units(n, GIB).as_str());
                label.append(
                    " GiB on remote disk. Delete unused workspaces to free space.",
                );
            } else {
                label.append(in_units(n, MIB).as_str());
                label.append(" MiB on remote disk");
            }
            label
        },
        None => "History storage unavailable".to_owned(),
    }
}

/// A response that can be used, or why it cannot.
pub open spec fn usable(response: Result<PersistentWorkspaceResponseView, Seq<char>>) -> Result<
    PersistentWorkspaceResponseView,
    Seq<char>,
> {
    match response {
        Err(message) => Err(message),
        Ok(r) => if r.protocol_version != 1 || !r.management_supported
            || !r.terminal_transport_supported || !r.block_replay_supported {
            Err(
                "This SSH extension does not support persistent workspaces. Install the matching custom build."@,
            )
        } else {
            match r.error {
                Some(error) => Err(error.code + ": "@ + error.message),
                None => Ok(r),
            }
        },
    }
}

/// A response that can be used, or why it cannot.
pub fn checked(response: PersistentWorkspaceResponse) -> (r: Result<
    PersistentWorkspaceResponse,
    LocalError,
>)
    ensures
        outcome(r) == usable(Ok(response.deep_view())),
{
    if response.protocol_version != 1 || !response.management_supported
        || !response.terminal_transport_supported || !response.block_replay_supported {
        return Err(
            crate::local::refuse(
                "This SSH extension does not support persistent workspaces. Install the matching custom build.",
            ),
        );
    }
    match &response.error {
        Some(error) => {
            let mut message = error.code.clone();
            message.append(": ");
            message.append(error.message.as_str());
            Err(LocalError { message })
        },
        None => Ok(response),
    }
}

fn checked_result(response: Result<PersistentWorkspaceResponse, String>) -> (r: Result<
    PersistentWorkspaceResponse,
    String,
>)
    ensures
        outcome(r) == usable(outcome(response)),
{
    match response {
        Err(message) => Err(message),
        Ok(response) => match checked(response) {
            Ok(response) => Ok(response),
            Err(error) => Err(error.message),
        },
    }
}

// ---------------------------------------------------------------------------
// The picker
// ---------------------------------------------------------------------------

/// The connection of the terminal that opened the picker: its shell, the workspace
/// that it is attached to, and whether it has an owner or a recipe for one.
#[derive(Debug)]
pub struct PickerConnection {
    pub shell: ShellType,
    pub current_workspace: Option<WorkspaceKey>,
    pub has_owner: bool,
    pub has_recipe: bool,
}

#[verifier::ext_equal]
pub struct PickerConnectionView {
    pub shell: ShellType,
    pub current_workspace: Option<WorkspaceKeyView>,
    pub has_owner: bool,
    pub has_recipe: bool,
}

impl DeepView for PickerConnection {
    type V = PickerConnectionView;

    open spec fn deep_view(&self) -> PickerConnectionView {
        PickerConnectionView {
            shell: self.shell,
            current_workspace: self.current_workspace.deep_view(),
            has_owner: self.has_owner,
            has_recipe: self.has_recipe,
        }
    }
}

/// What the user asks for.
#[derive(Debug)]
pub enum Action {
    Close,
    Refresh,
    New,
    Select(WorkspaceKey),
    Terminate(WorkspaceKey),
    Up,
    Down,
    Enter,
}

/// What the picker tells the view that opened it.
#[derive(Clone, Copy, PartialEq, Eq, Structural, Debug)]
pub enum PickerEvent {
    Close,
}

/// A workspace that is opened in a terminal of its own. Without an owner of the
/// connection, one is made of the recipe first.
#[derive(Debug)]
pub struct OpenPlan {
    pub workspace_id: String,
    pub generation: String,
    pub shell_type: ShellType,
    pub new_owner: bool,
}

#[verifier::ext_equal]
pub struct OpenPlanView {
    pub workspace_id: Seq<char>,
    pub generation: Seq<char>,
    pub shell_type: ShellType,
    pub new_owner: bool,
}

impl DeepView for OpenPlan {
    type V = OpenPlanView;

    open spec fn deep_view(&self) -> OpenPlanView {
        OpenPlanView {
            workspace_id: self.workspace_id@,
            generation: self.generation@,
            shell_type: self.shell_type,
            new_owner: self.new_owner,
        }
    }
}

/// What the application does next.
#[derive(Debug)]
pub enum PickerStep {
    Nothing,
    Redraw,
    Request(PersistentWorkspaceRequest),
    /// Open the workspace and close the picker.
    Open(OpenPlan),
    Emit(PickerEvent),
    /// Close the terminal, whose workspace is gone, and the picker.
    ExitTerminal,
}

pub enum PickerStepView {
    Nothing,
    Redraw,
    Request(PersistentWorkspaceRequestView),
    Open(OpenPlanView),
    Emit(PickerEvent),
    ExitTerminal,
}

impl DeepView for PickerStep {
    type V = PickerStepView;

    open spec fn deep_view(&self) -> PickerStepView {
        match *self {
            PickerStep::Nothing => PickerStepView::Nothing,
            PickerStep::Redraw => PickerStepView::Redraw,
            PickerStep::Request(request) => PickerStepView::Request(request.deep_view()),
            PickerStep::Open(plan) => PickerStepView::Open(plan.deep_view()),
            PickerStep::Emit(event) => PickerStepView::Emit(event),
            PickerStep::ExitTerminal => PickerStepView::ExitTerminal,
        }
    }
}

/// What the picker has asked the daemon for.
#[derive(Debug)]
pub enum Pending {
    Nothing,
    List,
    Create(String),
    Terminate { current: bool },
}

pub enum PendingView {
    Nothing,
    List,
    Create(Seq<char>),
    Terminate { current: bool },
}

impl DeepView for Pending {
    type V = PendingView;

    open spec fn deep_view(&self) -> PendingView {
        match *self {
            Pending::Nothing => PendingView::Nothing,
            Pending::List => PendingView::List,
            Pending::Create(id) => PendingView::Create(id@),
            Pending::Terminate { current } => PendingView::Terminate { current },
        }
    }
}

/// The picker of workspaces. The place behind the last workspace is that of a new one.
#[derive(Debug)]
pub struct PersistentWorkspacePopup {
    connection: Option<PickerConnection>,
    workspaces: Vec<PersistentWorkspace>,
    selected: usize,
    pending: Pending,
    error: Option<String>,
    confirm_termination: Option<WorkspaceKey>,
}

#[verifier::ext_equal]
pub struct PopupView {
    pub connection: Option<PickerConnectionView>,
    pub workspaces: Seq<PersistentWorkspaceView>,
    pub selected: usize,
    pub pending: PendingView,
    pub error: Option<Seq<char>>,
    pub confirm_termination: Option<WorkspaceKeyView>,
}

impl DeepView for PersistentWorkspacePopup {
    type V = PopupView;

    closed spec fn deep_view(&self) -> PopupView {
        PopupView {
            connection: self.connection.deep_view(),
            workspaces: self.workspaces.deep_view(),
            selected: self.selected,
            pending: self.pending.deep_view(),
            error: self.error.deep_view(),
            confirm_termination: self.confirm_termination.deep_view(),
        }
    }
}

/// Only one request is under way at a time.
pub open spec fn is_busy(p: PopupView) -> bool {
    !(p.pending is Nothing)
}

pub open spec fn with_error(p: PopupView, message: Seq<char>) -> (PopupView, PickerStepView) {
    (PopupView { error: Some(message), ..p }, PickerStepView::Redraw)
}

pub open spec fn not_connected() -> Seq<char> {
    "The SSH extension is not connected. Connect it before opening a persistent workspace."@
}

/// A request without anything but its operation and an incarnation.
pub open spec fn plain_request(
    operation: i32,
    id: Seq<char>,
    generation: Seq<char>,
) -> PersistentWorkspaceRequestView {
    PersistentWorkspaceRequestView {
        protocol_version: 1,
        operation,
        workspace_id: id,
        generation,
        working_directory: None,
        bootstrap: None,
        history_retention: None,
        terminal: None,
    }
}

/// There is a client to ask: the picker has a connection, and it is connected.
pub open spec fn has_client(p: PopupView, connected: bool) -> bool {
    p.connection is Some && connected
}

/// The list is asked for.
pub open spec fn refreshing(p: PopupView, connected: bool) -> (PopupView, PickerStepView) {
    if is_busy(p) {
        (p, PickerStepView::Nothing)
    } else if !has_client(p, connected) {
        with_error(p, not_connected())
    } else {
        (
            PopupView { pending: PendingView::List, error: None, ..p },
            PickerStepView::Request(plain_request(2, Seq::empty(), Seq::empty())),
        )
    }
}

/// A workspace is asked for, under an identity of its own.
pub open spec fn creating(
    p: PopupView,
    connected: bool,
    scripts: Result<(Seq<u8>, Seq<u8>), Seq<char>>,
    retention: i32,
    id: Seq<char>,
) -> (PopupView, PickerStepView) {
    if is_busy(p) {
        (p, PickerStepView::Nothing)
    } else if !has_client(p, connected) {
        with_error(p, not_connected())
    } else {
        match (shell_name(p.connection->Some_0.shell), scripts) {
            (None, _) => with_error(p, "Persistent Unix workspaces do not support PowerShell"@),
            (_, Err(message)) => with_error(p, message),
            (Some(shell), Ok((init_script, bootstrap_script))) => (
                PopupView { pending: PendingView::Create(id), error: None, ..p },
                PickerStepView::Request(
                    PersistentWorkspaceRequestView {
                        bootstrap: Some(
                            PersistentShellBootstrapView { shell, init_script, bootstrap_script },
                        ),
                        history_retention: Some(retention),
                        ..plain_request(1, id, Seq::empty())
                    },
                ),
            ),
        }
    }
}

pub open spec fn durable_shell(name: Option<Seq<char>>) -> Option<ShellType> {
    if name == Some("bash"@) {
        Some(ShellType::Bash)
    } else if name == Some("zsh"@) {
        Some(ShellType::Zsh)
    } else if name == Some("fish"@) {
        Some(ShellType::Fish)
    } else {
        None
    }
}

/// A workspace is opened. The one that the terminal is attached to already only
/// closes the picker.
pub open spec fn attaching(p: PopupView, workspace: PersistentWorkspaceView) -> (
    PopupView,
    PickerStepView,
) {
    match durable_shell(workspace.shell) {
        None => with_error(
            p,
            "This pane was not created with durable Warp shell integration. It has not been modified."@,
        ),
        Some(shell_type) => match p.connection {
            None => (p, PickerStepView::Nothing),
            Some(connection) => if connection.current_workspace == Some(key_of(workspace)) {
                (p, PickerStepView::Emit(PickerEvent::Close))
            } else if !connection.has_owner && !connection.has_recipe {
                with_error(
                    p,
                    "Reconnect details are unavailable for this SSH connection. Open a new SSH connection from this custom build first."@,
                )
            } else {
                (
                    p,
                    PickerStepView::Open(
                        OpenPlanView {
                            workspace_id: workspace.workspace_id,
                            generation: workspace.generation,
                            shell_type,
                            new_owner: !connection.has_owner,
                        },
                    ),
                )
            },
        },
    }
}

/// A workspace is to be ended: the first request for an incarnation only asks for a
/// confirmation, the second one ends it.
pub open spec fn terminating(p: PopupView, key: WorkspaceKeyView, connected: bool) -> (
    PopupView,
    PickerStepView,
) {
    if is_busy(p) {
        (p, PickerStepView::Nothing)
    } else if position_of(p.workspaces, key) is None {
        with_error(p, "That workspace changed. Refresh the list before terminating it."@)
    } else if p.confirm_termination != Some(key) {
        (PopupView { confirm_termination: Some(key), ..p }, PickerStepView::Redraw)
    } else if !has_client(p, connected) {
        with_error(p, not_connected())
    } else {
        (
            PopupView {
                pending: PendingView::Terminate {
                    current: p.connection->Some_0.current_workspace == Some(key),
                },
                error: None,
                ..p
            },
            PickerStepView::Request(plain_request(4, key.id, key.generation)),
        )
    }
}

/// The daemon has answered.
pub open spec fn answered(
    p: PopupView,
    response: Result<PersistentWorkspaceResponseView, Seq<char>>,
    connected: bool,
) -> (PopupView, PickerStepView) {
    let free = PopupView { pending: PendingView::Nothing, ..p };
    match p.pending {
        PendingView::Nothing => (p, PickerStepView::Nothing),
        PendingView::List => match usable(response) {
            Err(message) => with_error(free, message),
            Ok(r) => (
                PopupView {
                    workspaces: r.workspaces,
                    selected: if free.selected <= r.workspaces.len() {
                        free.selected
                    } else {
                        r.workspaces.len() as usize
                    },
                    ..free
                },
                PickerStepView::Redraw,
            ),
        },
        PendingView::Create(id) => match usable(response) {
            Err(message) => with_error(free, message),
            Ok(r) => if r.workspaces.len() == 0 {
                with_error(free, "Missing created workspace"@)
            } else if r.workspaces[0].workspace_id != id {
                with_error(free, "Create response returned a different workspace"@)
            } else {
                attaching(free, r.workspaces[0])
            },
        },
        PendingView::Terminate { current } => {
            let settled = PopupView { confirm_termination: None, ..free };
            match usable(response) {
                Err(message) => with_error(settled, message),
                Ok(_) => if current {
                    (settled, PickerStepView::ExitTerminal)
                } else {
                    refreshing(settled, connected)
                },
            }
        },
    }
}

pub enum ActionView {
    Close,
    Refresh,
    New,
    Select(WorkspaceKeyView),
    Terminate(WorkspaceKeyView),
    Up,
    Down,
    Enter,
}

impl DeepView for Action {
    type V = ActionView;

    open spec fn deep_view(&self) -> ActionView {
        match *self {
            Action::Close => ActionView::Close,
            Action::Refresh => ActionView::Refresh,
            Action::New => ActionView::New,
            Action::Select(key) => ActionView::Select(key.deep_view()),
            Action::Terminate(key) => ActionView::Terminate(key.deep_view()),
            Action::Up => ActionView::Up,
            Action::Down => ActionView::Down,
            Action::Enter => ActionView::Enter,
        }
    }
}

/// The action of a key while the picker has the focus.
pub fn bound_action(key: &str) -> (action: Option<Action>)
    ensures
        action.deep_view() == (if key@ == "escape"@ {
            Some(ActionView::Close)
        } else if key@ == "up"@ {
            Some(ActionView::Up)
        } else if key@ == "down"@ {
            Some(ActionView::Down)
        } else if key@ == "enter"@ {
            Some(ActionView::Enter)
        } else {
            None
        }),
{
    if text::same(key, "escape") {
        Some(Action::Close)
    } else if text::same(key, "up") {
        Some(Action::Up)
    } else if text::same(key, "down") {
        Some(Action::Down)
    } else if text::same(key, "enter") {
        Some(Action::Enter)
    } else {
        None
    }
}

/// A workspace is picked from the list by its key. One that is not there any more
/// is not opened.
pub open spec fn selecting(p: PopupView, key: WorkspaceKeyView) -> (PopupView, PickerStepView) {
    if is_busy(p) {
        (p, PickerStepView::Nothing)
    } else {
        match position_of(p.workspaces, key) {
            Some(i) => attaching(p, p.workspaces[i]),
            None => (p, PickerStepView::Nothing),
        }
    }
}

/// What a user's action makes of the picker; `id` is the identity of a workspace
/// that it may create.
pub open spec fn acted(
    p: PopupView,
    action: ActionView,
    connected: bool,
    scripts: Result<(Seq<u8>, Seq<u8>), Seq<char>>,
    retention: i32,
    id: Seq<char>,
) -> (PopupView, PickerStepView) {
    match action {
        ActionView::Close => (
            PopupView { confirm_termination: None, ..p },
            PickerStepView::Emit(PickerEvent::Close),
        ),
        ActionView::Refresh => refreshing(p, connected),
        ActionView::New => creating(p, connected, scripts, retention, id),
        ActionView::Select(key) => selecting(p, key),
        ActionView::Terminate(key) => terminating(p, key, connected),
        ActionView::Up => (
            PopupView {
                selected: if p.selected == 0 {
                    0
                } else {
                    (p.selected - 1) as usize
                },
                ..p
            },
            PickerStepView::Redraw,
        ),
        ActionView::Down => (
            PopupView {
                selected: if p.selected < p.workspaces.len() {
                    (p.selected + 1) as usize
                } else {
                    p.workspaces.len() as usize
                },
                ..p
            },
            PickerStepView::Redraw,
        ),
        ActionView::Enter => if p.selected == p.workspaces.len() {
            creating(p, connected, scripts, retention, id)
        } else if p.selected < p.workspaces.len() {
            selecting(p, key_of(p.workspaces[p.selected as int]))
        } else {
            (p, PickerStepView::Nothing)
        },
    }
}

/// `uuid::Uuid::new_v4`, written by `Uuid::simple`: 32 lowercase hexadecimal digits,
/// of which one gives the version and one the variant. The others are random.
#[verifier::external_body]
fn random_identity() -> (id: String)
    ensures
        is_token(id@),
        id@[12] == '4',
        id@[16] == '8' || id@[16] == '9' || id@[16] == 'a' || id@[16] == 'b',
{
    uuid::Uuid::new_v4().simple().to_string()
}

/// The scripts of a new workspace's shell, or why they could not be had.
pub type Scripts = Result<(Vec<u8>, Vec<u8>), String>;

pub open spec fn scripts_view(scripts: Scripts) -> Result<(Seq<u8>, Seq<u8>), Seq<char>> {
    match scripts {
        Ok((init, bootstrap)) => Ok((init@, bootstrap@)),
        Err(message) => Err(message@),
    }
}

impl PersistentWorkspacePopup {
    /// A picker without a connection.
    pub fn new() -> (popup: Self)
        ensures
            popup.deep_view() == (PopupView {
                connection: None,
                workspaces: Seq::empty(),
                selected: 0,
                pending: PendingView::Nothing,
                error: None,
                confirm_termination: None,
            }),
    {
        let popup = PersistentWorkspacePopup {
            connection: None,
            workspaces: Vec::new(),
            selected: 0,
            pending: Pending::Nothing,
            error: None,
            confirm_termination: None,
        };
        assert(popup.workspaces.deep_view() =~= Seq::empty());
        popup
    }

    /// Opens the picker on a connection, and asks for the list.
    pub fn open(&mut self, connection: Option<PickerConnection>, connected: bool) -> (step:
        PickerStep)
        ensures
            (final(self).deep_view(), step.deep_view()) == refreshing(
                PopupView {
                    connection: connection.deep_view(),
                    confirm_termination: None,
                    ..old(self).deep_view()
                },
                connected,
            ),
    {
        self.connection = connection;
        self.confirm_termination = None;
        self.refresh(connected)
    }

    /// Whether a request is under way.
    pub fn busy(&self) -> (r: bool)
        ensures
            r == is_busy(self.deep_view()),
    {
        match &self.pending {
            Pending::Nothing => false,
            _ => true,
        }
    }

    fn report(&mut self, message: &str) -> (step: PickerStep)
        ensures
            (final(self).deep_view(), step.deep_view()) == with_error(
                old(self).deep_view(),
                message@,
            ),
    {
        self.error = Some(message.to_owned());
        PickerStep::Redraw
    }

    /// The owner of the connection could not be made.
    pub fn owner_failed(&mut self, reason: &str) -> (step: PickerStep)
        ensures
            (final(self).deep_view(), step.deep_view()) == with_error(
                old(self).deep_view(),
                "Cannot own this connection: "@ + reason@,
            ),
    {
        let message = text::joined("Cannot own this connection: ", reason);
        self.report(message.as_str())
    }

    fn client(&self, connected: bool) -> (r: bool)
        ensures
            r == has_client(self.deep_view(), connected),
    {
        self.connection.is_some() && connected
    }

    fn refresh(&mut self, connected: bool) -> (step: PickerStep)
        ensures
            (final(self).deep_view(), step.deep_view()) == refreshing(
                old(self).deep_view(),
                connected,
            ),
    {
        if self.busy() {
            return PickerStep::Nothing;
        }
        if !self.client(connected) {
            return self.report(
                "The SSH extension is not connected. Connect it before opening a persistent workspace.",
            );
        }
        self.pending = Pending::List;
        self.error = None;
        PickerStep::Request(
            request_of(PersistentWorkspaceOperation::List, String::new(), String::new()),
        )
    }

    fn create(&mut self, connected: bool, scripts: Scripts, retention: i32, id: String) -> (step:
        PickerStep)
        ensures
            (final(self).deep_view(), step.deep_view()) == creating(
                old(self).deep_view(),
                connected,
                scripts_view(scripts),
                retention,
                id@,
            ),
    {
        if self.busy() {
            return PickerStep::Nothing;
        }
        if !connected {
            return self.report(
                "The SSH extension is not connected. Connect it before opening a persistent workspace.",
            );
        }
        let shell = match &self.connection {
            Some(connection) => connection.shell,
            None => {
                return self.report(
                    "The SSH extension is not connected. Connect it before opening a persistent workspace.",
                );
            },
        };
        if shell.name().is_none() {
            return self.report("Persistent Unix workspaces do not support PowerShell");
        }
        let (init_script, bootstrap_script) = match scripts {
            Ok(scripts) => scripts,
            Err(message) => return self.report(message.as_str()),
        };
        let profile = match profile_for_shell(shell, init_script, bootstrap_script) {
            Ok(profile) => profile,
            Err(error) => return self.report(error.message.as_str()),
        };
        let mut request = request_of(
            PersistentWorkspaceOperation::Create,
            id.clone(),
            String::new(),
        );
        request.bootstrap = Some(profile);
        request.history_retention = Some(retention);
        self.pending = Pending::Create(id);
        self.error = None;
        PickerStep::Request(request)
    }

    fn attach(&mut self, workspace: &PersistentWorkspace) -> (step: PickerStep)
        ensures
            (final(self).deep_view(), step.deep_view()) == attaching(
                old(self).deep_view(),
                workspace.deep_view(),
            ),
    {
        let shell_type = if text::is_text(&workspace.shell, "bash") {
            ShellType::Bash
        } else if text::is_text(&workspace.shell, "zsh") {
            ShellType::Zsh
        } else if text::is_text(&workspace.shell, "fish") {
            ShellType::Fish
        } else {
            return self.report(
                "This pane was not created with durable Warp shell integration. It has not been modified.",
            );
        };
        let key = WorkspaceKey::of(workspace);
        let (current, has_owner, has_recipe) = match &self.connection {
            None => return PickerStep::Nothing,
            Some(connection) => (
                match &connection.current_workspace {
                    Some(current) => current.same(&key),
                    None => false,
                },
                connection.has_owner,
                connection.has_recipe,
            ),
        };
        if current {
            return PickerStep::Emit(PickerEvent::Close);
        }
        if !has_owner && !has_recipe {
            return self.report(
                "Reconnect details are unavailable for this SSH connection. Open a new SSH connection from this custom build first.",
            );
        }
        PickerStep::Open(
            OpenPlan {
                workspace_id: key.id,
                generation: key.generation,
                shell_type,
                new_owner: !has_owner,
            },
        )
    }

    fn terminate(&mut self, key: WorkspaceKey, connected: bool) -> (step: PickerStep)
        ensures
            (final(self).deep_view(), step.deep_view()) == terminating(
                old(self).deep_view(),
                key.deep_view(),
                connected,
            ),
    {
        if self.busy() {
            return PickerStep::Nothing;
        }
        if position(&self.workspaces, &key).is_none() {
            return self.report(
                "That workspace changed. Refresh the list before terminating it.",
            );
        }
        let confirmed = match &self.confirm_termination {
            Some(confirmed) => confirmed.same(&key),
            None => false,
        };
        if !confirmed {
            self.confirm_termination = Some(key);
            return PickerStep::Redraw;
        }
        if !connected {
            return self.report(
                "The SSH extension is not connected. Connect it before opening a persistent workspace.",
            );
        }
        let current = match &self.connection {
            Some(connection) => match &connection.current_workspace {
                Some(current) => current.same(&key),
                None => false,
            },
            None => {
                return self.report(
                    "The SSH extension is not connected. Connect it before opening a persistent workspace.",
                );
            },
        };
        self.pending = Pending::Terminate { current };
        self.error = None;
        PickerStep::Request(
            request_of(PersistentWorkspaceOperation::Terminate, key.id, key.generation),
        )
    }

    fn select(&mut self, key: &WorkspaceKey) -> (step: PickerStep)
        ensures
            (final(self).deep_view(), step.deep_view()) == selecting(
                old(self).deep_view(),
                key.deep_view(),
            ),
    {
        if self.busy() {
            return PickerStep::Nothing;
        }
        match position(&self.workspaces, key) {
            Some(i) => {
                assert(self.workspaces.deep_view()[i as int]
                    == self.workspaces@[i as int].deep_view());
                let workspace = copy_workspace(&self.workspaces[i]);
                self.attach(&workspace)
            },
            None => PickerStep::Nothing,
        }
    }

    /// Carries out a user's action. A workspace that it creates gets a random identity.
    pub fn handle_action(
        &mut self,
        action: Action,
        connected: bool,
        scripts: Scripts,
        retention: i32,
    ) -> (step: PickerStep)
        ensures
            exists|id: Seq<char>|
                is_token(id) && (final(self).deep_view(), step.deep_view()) == #[trigger] acted(
                    old(self).deep_view(),
                    action.deep_view(),
                    connected,
                    scripts_view(scripts),
                    retention,
                    id,
                ),
    {
        let id = random_identity();
        let ghost chosen = id@;
        let step = self.handle_action_as(action, connected, scripts, retention, id);
        assert((self.deep_view(), step.deep_view()) == acted(
            old(self).deep_view(),
            action.deep_view(),
            connected,
            scripts_view(scripts),
            retention,
            chosen,
        ));
        step
    }

    /// Carries out a user's action. A workspace that it creates gets this identity.
    pub fn handle_action_as(
        &mut self,
        action: Action,
        connected: bool,
        scripts: Scripts,
        retention: i32,
        id: String,
    ) -> (step: PickerStep)
        ensures
            (final(self).deep_view(), step.deep_view()) == acted(
                old(self).deep_view(),
                action.deep_view(),
                connected,
                scripts_view(scripts),
                retention,
                id@,
            ),
    {
        assert(self.workspaces.deep_view().len() == self.workspaces@.len());
        match action {
            Action::Close => {
                self.confirm_termination = None;
                PickerStep::Emit(PickerEvent::Close)
            },
            Action::Refresh => self.refresh(connected),
            Action::New => self.create(connected, scripts, retention, id),
            Action::Select(key) => self.select(&key),
            Action::Terminate(key) => self.terminate(key, connected),
            Action::Up => {
                if self.selected > 0 {
                    self.selected = self.selected - 1;
                }
                PickerStep::Redraw
            },
            Action::Down => {
                self.selected = if self.selected < self.workspaces.len() {
                    self.selected + 1
                } else {
                    self.workspaces.len()
                };
                PickerStep::Redraw
            },
            Action::Enter => {
                if self.selected == self.workspaces.len() {
                    self.create(connected, scripts, retention, id)
                } else if self.selected < self.workspaces.len() {
                    assert(self.workspaces.deep_view()[self.selected as int]
                        == self.workspaces@[self.selected as int].deep_view());
                    let key = WorkspaceKey::of(&self.workspaces[self.selected]);
                    self.select(&key)
                } else {
                    PickerStep::Nothing
                }
            },
        }
    }

    /// Takes the daemon's answer.
    pub fn respond(
        &mut self,
        response: Result<PersistentWorkspaceResponse, String>,
        connected: bool,
    ) -> (step:
        PickerStep)
        ensures
            (final(self).deep_view(), step.deep_view()) == answered(
                old(self).deep_view(),
                outcome(response),
                connected,
            ),
    {
        let mut pending = Pending::Nothing;
        std::mem::swap(&mut pending, &mut self.pending);
        match pending {
            Pending::Nothing => PickerStep::Nothing,
            Pending::List => match checked_result(response) {
                Err(message) => self.report(message.as_str()),
                Ok(r) => {
                    assert(r.workspaces.deep_view().len() == r.workspaces@.len());
                    self.workspaces = r.workspaces;
                    if self.selected > self.workspaces.len() {
                        self.selected = self.workspaces.len();
                    }
                    PickerStep::Redraw
                },
            },
            Pending::Create(id) => match checked_result(response) {
                Err(message) => self.report(message.as_str()),
                Ok(r) => {
                    assert(r.workspaces.deep_view().len() == r.workspaces@.len());
                    if r.workspaces.len() == 0 {
                        return self.report("Missing created workspace");
                    }
                    assert(r.workspaces.deep_view()[0] == r.workspaces@[0].deep_view());
                    if !text::same(r.workspaces[0].workspace_id.as_str(), id.as_str()) {
                        return self.report("Create response returned a different workspace");
                    }
                    self.attach(&r.workspaces[0])
                },
            },
            Pending::Terminate { current } => {
                self.confirm_termination = None;
                match checked_result(response) {
                    Err(message) => self.report(message.as_str()),
                    Ok(_) => {
                        if current {
                            PickerStep::ExitTerminal
                        } else {
                            self.refresh(connected)
                        }
                    },
                }
            },
        }
    }
}

fn copy_text(value: &Option<String>) -> (r: Option<String>)
    ensures
        r.deep_view() == value.deep_view(),
{
    match value {
        Some(text) => Some(text.clone()),
        None => None,
    }
}

fn copy_workspace(workspace: &PersistentWorkspace) -> (r: PersistentWorkspace)
    ensures
        r.deep_view() == workspace.deep_view(),
{
    PersistentWorkspace {
        workspace_id: workspace.workspace_id.clone(),
        generation: workspace.generation.clone(),
        session_id: workspace.session_id.clone(),
        window_id: workspace.window_id.clone(),
        pane_id: workspace.pane_id.clone(),
        shell_pid: workspace.shell_pid,
        exited: workspace.exited,
        exit_code: workspace.exit_code,
        shell: copy_text(&workspace.shell),
        activity: copy_text(&workspace.activity),
        history_storage_bytes: workspace.history_storage_bytes,
    }
}

fn request_of(operation: PersistentWorkspaceOperation, id: String, generation: String) -> (request:
    PersistentWorkspaceRequest)
    ensures
        request.deep_view() == plain_request(
            match operation {
                PersistentWorkspaceOperation::Probe => 0,
                PersistentWorkspaceOperation::Create => 1,
                PersistentWorkspaceOperation::List => 2,
                PersistentWorkspaceOperation::Resolve => 3,
                PersistentWorkspaceOperation::Terminate => 4,
                PersistentWorkspaceOperation::Terminal => 5,
            },
            id@,
            generation@,
        ),
{
    PersistentWorkspaceRequest {
        protocol_version: 1,
        operation: operation.to_number(),
        workspace_id: id,
        generation,
        working_directory: None,
        bootstrap: None,
        history_retention: None,
        terminal: None,
    }
}

// ---------------------------------------------------------------------------
// The view
// ---------------------------------------------------------------------------

/// A row of the picker, from the top down.
#[derive(Debug)]
pub enum PickerRow {
    Text(String),
    /// A workspace: its title, whether it is the selected row, and its key.
    Workspace(String, bool, WorkspaceKey),
    NewWorkspace(&'static str),
    Refresh(&'static str),
}

pub enum PickerRowView {
    Text(Seq<char>),
    Workspace(Seq<char>, bool, WorkspaceKeyView),
    NewWorkspace(Seq<char>),
    Refresh(Seq<char>),
}

impl DeepView for PickerRow {
    type V = PickerRowView;

    open spec fn deep_view(&self) -> PickerRowView {
        match *self {
            PickerRow::Text(text) => PickerRowView::Text(text@),
            PickerRow::Workspace(title, selected, key) => PickerRowView::Workspace(
                title@,
                selected,
                key.deep_view(),
            ),
            PickerRow::NewWorkspace(label) => PickerRowView::NewWorkspace(label@),
            PickerRow::Refresh(label) => PickerRowView::Refresh(label@),
        }
    }
}

/// The title of a workspace's row.
pub open spec fn row_title(workspace: PersistentWorkspaceView, current: bool) -> Seq<char> {
    (if current {
        "Current: "@
    } else {
        ""@
    }) + (match workspace.shell {
        Some(shell) => shell,
        None => "legacy"@,
    }) + " "@ + workspace.window_id + " | "@ + status_word(workspace.exited, workspace.activity)
        + "\n"@ + history_text(workspace.history_storage_bytes)
}

fn title_of(workspace: &PersistentWorkspace, current: bool) -> (title: String)
    ensures
        title@ == row_title(workspace.deep_view(), current),
{
    let mut title = if current {
        "Current: ".to_owned()
    } else {
        "".to_owned()
    };
    match &workspace.shell {
        Some(shell) => title.append(shell.as_str()),
        None => title.append("legacy"),
    }
    title.append(" ");
    title.append(workspace.window_id.as_str());
    title.append(" | ");
    title.append(workspace_status(workspace));
    title.append("\n");
    title.append(history_label(workspace.history_storage_bytes).as_str());
    title
}

/// The row of the workspace at a place in the list.
pub open spec fn workspace_row(p: PopupView, i: int) -> PickerRowView {
    let workspace = p.workspaces[i];
    let current = p.connection is Some && p.connection->Some_0.current_workspace == Some(
        key_of(workspace),
    );
    PickerRowView::Workspace(row_title(workspace, current), p.selected == i, key_of(workspace))
}

/// The rows above the list.
pub open spec fn heading_rows(p: PopupView) -> Seq<PickerRowView> {
    let heading = Seq::empty().push(PickerRowView::Text("Persistent workspaces"@));
    let noted = match p.error {
        Some(error) => heading.push(PickerRowView::Text(error)),
        None => heading,
    };
    if p.confirm_termination is Some {
        noted.push(
            PickerRowView::Text(
                "Stops this shell and its job and deletes retained history. Click its red x again to delete."@,
            ),
        )
    } else {
        noted
    }
}

/// The rows of the picker.
pub open spec fn picker_rows(p: PopupView) -> Seq<PickerRowView> {
    (heading_rows(p) + Seq::new(p.workspaces.len(), |i: int| workspace_row(p, i))).push(
        PickerRowView::NewWorkspace(
            if is_busy(p) {
                "Working..."@
            } else {
                "+ New workspace"@
            },
        ),
    ).push(PickerRowView::Refresh("Refresh"@))
}

fn push_row(rows: &mut Vec<PickerRow>, row: PickerRow)
    ensures
        final(rows).deep_view() == old(rows).deep_view().push(row.deep_view()),
{
    let ghost before = rows.deep_view();
    rows.push(row);
    assert(rows.deep_view() =~= before.push(row.deep_view()));
}

impl PersistentWorkspacePopup {
    fn row(&self, i: usize) -> (row: PickerRow)
        requires
            i < self.deep_view().workspaces.len(),
        ensures
            row.deep_view() == workspace_row(self.deep_view(), i as int),
    {
        assert(self.workspaces.deep_view().len() == self.workspaces@.len());
        assert(self.workspaces.deep_view()[i as int] == self.workspaces@[i as int].deep_view());
        let key = WorkspaceKey::of(&self.workspaces[i]);
        let current = match &self.connection {
            Some(connection) => match &connection.current_workspace {
                Some(current) => current.same(&key),
                None => false,
            },
            None => false,
        };
        PickerRow::Workspace(title_of(&self.workspaces[i], current), self.selected == i, key)
    }

    /// The rows of the picker.
    pub fn render(&self) -> (rows: Vec<PickerRow>)
        ensures
            rows.deep_view() == picker_rows(self.deep_view()),
    {
        let ghost p = self.deep_view();
        let mut rows: Vec<PickerRow> = Vec::new();
        assert(rows.deep_view() =~= Seq::empty());
        push_row(&mut rows, PickerRow::Text("Persistent workspaces".to_owned()));
        if let Some(error) = &self.error {
            push_row(&mut rows, PickerRow::Text(error.clone()));
        }
        if self.confirm_termination.is_some() {
            push_row(
                &mut rows,
                PickerRow::Text(
                    "Stops this shell and its job and deletes retained history. Click its red x again to delete.".to_owned(),
                ),
            );
        }
        assert(rows.deep_view() == heading_rows(p));
        let mut i: usize = 0;
        assert(self.workspaces.deep_view().len() == self.workspaces@.len());
        assert(rows.deep_view() =~= heading_rows(p) + Seq::new(0, |k: int| workspace_row(p, k)));
        while i < self.workspaces.len()
            invariant
                p == self.deep_view(),
                p.workspaces.len() == self.workspaces@.len(),
                i <= self.workspaces@.len(),
                rows.deep_view() == heading_rows(p) + Seq::new(
                    i as nat,
                    |k: int| workspace_row(p, k),
                ),
            decreases self.workspaces@.len() - i,
        {
            let row = self.row(i);
            push_row(&mut rows, row);
            i += 1;
            assert(rows.deep_view() =~= heading_rows(p) + Seq::new(
                i as nat,
                |k: int| workspace_row(p, k),
            ));
        }
        push_row(
            &mut rows,
            PickerRow::NewWorkspace(
                if self.busy() {
                    "Working..."
                } else {
                    "+ New workspace"
                },
            ),
        );
        push_row(&mut rows, PickerRow::Refresh("Refresh"));
        rows
    }
}

// ---------------------------------------------------------------------------
// Laws
// ---------------------------------------------------------------------------

/// What the picker ends is an incarnation that is in its list, and that its user
/// has asked to end before: a single request never ends anything.
pub proof fn nothing_is_ended_unconfirmed(p: PopupView, key: WorkspaceKeyView, connected: bool)
    ensures
        terminating(p, key, connected).1 is Request ==> {
            &&& p.confirm_termination == Some(key)
            &&& position_of(p.workspaces, key) is Some
            &&& terminating(p, key, connected).1->Request_0 == plain_request(
                4,
                key.id,
                key.generation,
            )
        },
        p.confirm_termination != Some(key) ==> !(terminating(p, key, connected).1 is Request),
{
}

/// The red cross, clicked again and again while nothing else happens. The first click
/// on a listed incarnation sends nothing and asks for a confirmation of exactly that
/// one; a second click on it sends the one request that ends exactly that one. A click
/// on another listed incarnation in between asks anew, for that other one, and then the
/// first one has to be confirmed again. A click on one that is not listed shows an error
/// and sends nothing.
pub proof fn the_cross_asks_before_it_ends(
    p: PopupView,
    key: WorkspaceKeyView,
    other: WorkspaceKeyView,
    connected: bool,
)
    requires
        !is_busy(p),
        has_client(p, connected),
        p.confirm_termination is None,
        key != other,
    ensures
        position_of(p.workspaces, key) is None ==> {
            let (shown, step) = terminating(p, key, connected);
            &&& shown.error is Some
            &&& step is Redraw
            &&& shown == (PopupView { error: shown.error, ..p })
        },
        position_of(p.workspaces, key) is Some ==> {
            let (asked, first) = terminating(p, key, connected);
            let (ended, second) = terminating(asked, key, connected);
            let ending = plain_request(4, key.id, key.generation);
            &&& first is Redraw
            &&& asked == (PopupView { confirm_termination: Some(key), ..p })
            &&& second == PickerStepView::Request(ending)
            &&& ended.pending is Terminate
            &&& terminating(ended, key, connected) == (ended, PickerStepView::Nothing)
            &&& {
                let (turned, between) = terminating(asked, other, connected);
                let (back, third) = terminating(turned, key, connected);
                &&& between is Redraw
                &&& position_of(p.workspaces, other) is Some ==> {
                    &&& turned.confirm_termination == Some(other)
                    &&& third is Redraw
                    &&& back.confirm_termination == Some(key)
                }
                &&& position_of(p.workspaces, other) is None ==> {
                    &&& turned.error is Some
                    &&& turned.confirm_termination == Some(key)
                    &&& third == PickerStepView::Request(ending)
                }
            }
        },
{
}

/// What a user does with the picker, and what the world is like then.
pub struct UserAction {
    pub action: ActionView,
    pub connected: bool,
    pub scripts: Result<(Seq<u8>, Seq<u8>), Seq<char>>,
    pub retention: i32,
    pub id: Seq<char>,
}

pub open spec fn acted_once(p: PopupView, user: UserAction) -> (PopupView, PickerStepView) {
    acted(p, user.action, user.connected, user.scripts, user.retention, user.id)
}

/// The picker after a number of actions.
pub open spec fn acted_all(p: PopupView, actions: Seq<UserAction>) -> PopupView
    decreases actions.len(),
{
    if actions.len() == 0 {
        p
    } else {
        acted_once(acted_all(p, actions.drop_last()), actions.last()).0
    }
}

/// Among these actions the last click on a red cross of a listed incarnation was for
/// this key, and the picker was not closed since.
pub open spec fn asked_for(
    list: Seq<PersistentWorkspaceView>,
    actions: Seq<UserAction>,
    key: WorkspaceKeyView,
) -> bool
    decreases actions.len(),
{
    actions.len() > 0 && match actions.last().action {
        ActionView::Close => false,
        ActionView::Terminate(k) => if position_of(list, k) is Some {
            k == key
        } else {
            asked_for(list, actions.drop_last(), key)
        },
        _ => asked_for(list, actions.drop_last(), key),
    }
}

/// Whatever a user does, in whatever order: a request that ends an incarnation is sent
/// only by a click on its red cross, after another click on the same cross, with no
/// click on another listed one in between and without closing the picker.
pub proof fn every_end_was_asked_for(p: PopupView, actions: Seq<UserAction>, user: UserAction)
    requires
        p.confirm_termination is None,
        !is_busy(p),
    ensures
        ({
            let now = acted_all(p, actions);
            let step = acted_once(now, user).1;
            step matches PickerStepView::Request(request) ==> request.operation == 4 ==> {
                &&& user.action matches ActionView::Terminate(key)
                &&& request == plain_request(4, key.id, key.generation)
                &&& position_of(p.workspaces, key) is Some
                &&& asked_for(p.workspaces, actions, key)
            }
        }),
{
    lemma_asked_for(p, actions);
}

/// As long as only the user acts, the list stays, and a confirmation is of what was
/// asked for last.
proof fn lemma_asked_for(p: PopupView, actions: Seq<UserAction>)
    requires
        p.confirm_termination is None,
    ensures
        acted_all(p, actions).workspaces == p.workspaces,
        !is_busy(acted_all(p, actions)) ==> (acted_all(p, actions).confirm_termination matches Some(
            key,
        ) ==> asked_for(p.workspaces, actions, key)),
    decreases actions.len(),
{
    if actions.len() > 0 {
        lemma_asked_for(p, actions.drop_last());
    }
}

/// A key finds the same incarnation in whatever order a list is, and never another one.
pub proof fn keys_find_their_incarnation(list: Seq<PersistentWorkspaceView>, key: WorkspaceKeyView)
    ensures
        match position_of(list, key) {
            Some(i) => 0 <= i < list.len() && key_of(list[i]) == key,
            None => forall|i: int| 0 <= i < list.len() ==> key_of(#[trigger] list[i]) != key,
        },
    decreases list.len(),
{
    if list.len() > 0 {
        let front = list.drop_last();
        keys_find_their_incarnation(front, key);
        assert forall|i: int| 0 <= i < front.len() implies list[i] == front[i] by {}
        if position_of(list, key) is None {
            assert forall|i: int| 0 <= i < list.len() implies key_of(#[trigger] list[i]) != key by {
                if i < front.len() {
                    assert(key_of(front[i]) != key);
                }
            }
        }
    }
}

/// While a request is under way the picker sends no other one.
pub proof fn one_request_at_a_time(
    p: PopupView,
    action: ActionView,
    connected: bool,
    scripts: Result<(Seq<u8>, Seq<u8>), Seq<char>>,
    retention: i32,
    id: Seq<char>,
)
    requires
        is_busy(p),
    ensures
        !(acted(p, action, connected, scripts, retention, id).1 is Request),
        acted(p, action, connected, scripts, retention, id).0.pending == p.pending,
{
}

} // verus!
