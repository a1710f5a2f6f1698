//! Requests of the app-server that a thread puts to the user.
use crate::routing::{is_thread, names_thread, App, ThreadEventChannel};
use crate::text::{copy_texts, copy_option};
use vstd::prelude::*;
use vstd::string::*;

verus! {

/// What an elicitation of an MCP server asks for.
pub enum ElicitationKind {
    Form { message: String },
    OpenAiForm,
    Url,
}

/// A request of the app-server, as far as routing depends on it. What the host carries along
/// unread is named by text.
pub enum ServerRequest {
    CommandExecutionApproval {
        item_id: String,
        approval_id: Option<String>,
        environment_id: Option<String>,
        /// The words of the command.
        command: Option<Vec<String>>,
        reason: Option<String>,
        available_decisions: Option<Vec<String>>,
        /// What is offered where the request does not say.
        default_decisions: Vec<String>,
        network_approval_context: Option<String>,
        additional_permissions: Option<String>,
    },
    FileChangeApproval {
        item_id: String,
        reason: Option<String>,
        /// The changes of that item, where the thread knows them.
        changes: Option<Vec<String>>,
    },
    McpServerElicitation {
        request_id: String,
        server_name: String,
        kind: ElicitationKind,
        /// The request can be shown as a link of an app.
        is_app_link: bool,
        /// The request can be shown as a form.
        is_form: bool,
    },
    PermissionsApproval {
        item_id: String,
        environment_id: Option<String>,
        reason: Option<String>,
        /// The permissions in native paths, or why there are none.
        permissions: Result<String, String>,
    },
    Other,
}

/// What the user is asked to approve.
pub enum ApprovalRequest {
    Exec {
        thread_id: String,
        thread_label: Option<String>,
        id: String,
        environment_id: Option<String>,
        command: Vec<String>,
        reason: Option<String>,
        available_decisions: Vec<String>,
        network_approval_context: Option<String>,
        additional_permissions: Option<String>,
    },
    ApplyPatch {
        thread_id: String,
        thread_label: Option<String>,
        id: String,
        reason: Option<String>,
        cwd: String,
        changes: Vec<String>,
    },
    McpElicitation {
        thread_id: String,
        thread_label: Option<String>,
        server_name: String,
        request_id: String,
        message: String,
    },
    Permissions {
        thread_id: String,
        thread_label: Option<String>,
        call_id: String,
        environment_id: Option<String>,
        reason: Option<String>,
        permissions: String,
    },
}

/// What is shown to the user of a request.
pub enum ThreadInteractiveRequest {
    AppLink { request_id: String },
    Approval(ApprovalRequest),
    McpServerElicitation { request_id: String },
}

/// What becomes of a request.
pub enum InteractiveOutcome {
    /// The user has nothing to do with it.
    Nothing,
    Show(ThreadInteractiveRequest),
    /// The elicitation is declined.
    Decline { server_name: String, request_id: String },
}

/// What is said of permissions whose paths are not native ones.
pub open spec fn localization_failure(error: Seq<char>) -> Seq<char> {
    "failed to localize requested filesystem paths: "@ + error
}

/// The texts are the same, one by one.
pub open spec fn same_texts(a: Seq<String>, b: Seq<String>) -> bool {
    a.len() == b.len() && forall|i: int| 0 <= i < a.len() ==> (#[trigger] a[i])@ == b[i]@
}

/// The texts are those of a list that may be missing.
pub open spec fn texts_or(texts: Seq<String>, list: Option<Vec<String>>, other: Seq<String>) -> bool {
    match list {
        Some(list) => same_texts(texts, list@),
        None => same_texts(texts, other),
    }
}

/// The label is that of the thread.
pub open spec fn labels(label: Option<String>, text: Seq<char>) -> bool {
    label is Some && label->0@ == text
}

impl App {
    /// The working directory of a thread's session, where it is known.
    pub open spec fn session_cwd(self, thread_id: Seq<char>) -> Option<String> {
        if self.has_channel(thread_id) {
            match self.channel(thread_id).session {
                Some(session) => Some(session.cwd),
                None => None,
            }
        } else {
            None
        }
    }

    pub fn thread_cwd(&self, thread_id: &str) -> (cwd: Option<String>)
        ensures
            cwd == self.session_cwd(thread_id@),
    {
        let at: usize = self.channel_position(thread_id);
        if at < self.thread_event_channels.len() {
            match &self.thread_event_channels[at].session {
                Some(session) => Some(session.cwd.clone()),
                None => None,
            }
        } else {
            None
        }
    }

    /// What becomes of a request of a thread. An approval names the thread and carries what the
    /// request says, with a default where it says nothing. An elicitation is shown as a link or
    /// a form where it can be, else its message is shown for approval, and one that has none is
    /// declined.
    pub open spec fn interactive_step(
        self,
        thread: Seq<char>,
        config_cwd: String,
        request: ServerRequest,
        outcome: Result<InteractiveOutcome, String>,
    ) -> bool {
        let label = self.label_of(thread);
        match request {
            ServerRequest::CommandExecutionApproval {
                item_id: asked_item,
                approval_id,
                environment_id: asked_environment,
                command: asked_command,
                reason: asked_reason,
                available_decisions: asked_decisions,
                default_decisions,
                network_approval_context: asked_network,
                additional_permissions: asked_permissions,
            } => {
                &&& outcome matches Ok(
                    InteractiveOutcome::Show(
                        ThreadInteractiveRequest::Approval(
                            ApprovalRequest::Exec {
                                thread_id,
                                thread_label,
                                id,
                                environment_id,
                                command,
                                reason,
                                available_decisions,
                                network_approval_context,
                                additional_permissions,
                            },
                        ),
                    ),
                )
                &&& thread_id@ == thread
                &&& labels(thread_label, label)
                &&& id == match approval_id {
                    Some(approval) => approval,
                    None => asked_item,
                }
                &&& environment_id == asked_environment
                &&& texts_or(command@, asked_command, Seq::empty())
                &&& reason == asked_reason
                &&& texts_or(available_decisions@, asked_decisions, default_decisions@)
                &&& network_approval_context == asked_network
                &&& additional_permissions == asked_permissions
            },
            ServerRequest::FileChangeApproval {
                item_id: asked_item,
                reason: asked_reason,
                changes: known_changes,
            } => {
                &&& outcome matches Ok(
                    InteractiveOutcome::Show(
                        ThreadInteractiveRequest::Approval(
                            ApprovalRequest::ApplyPatch {
                                thread_id,
                                thread_label,
                                id,
                                reason,
                                cwd,
                                changes,
                            },
                        ),
                    ),
                )
                &&& thread_id@ == thread
                &&& labels(thread_label, label)
                &&& id == asked_item
                &&& reason == asked_reason
                &&& cwd == match self.session_cwd(thread) {
                    Some(cwd) => cwd,
                    None => config_cwd,
                }
                &&& texts_or(changes@, known_changes, Seq::empty())
            },
            ServerRequest::McpServerElicitation {
                request_id: asked_id,
                server_name: asked_server,
                kind,
                is_app_link,
                is_form,
            } => {
                if is_app_link {
                    outcome == Ok::<_, String>(
                        InteractiveOutcome::Show(
                            ThreadInteractiveRequest::AppLink { request_id: asked_id },
                        ),
                    )
                } else if is_form {
                    outcome == Ok::<_, String>(
                        InteractiveOutcome::Show(
                            ThreadInteractiveRequest::McpServerElicitation {
                                request_id: asked_id,
                            },
                        ),
                    )
                } else {
                    match kind {
                        ElicitationKind::Form { message: asked_message } => {
                            &&& outcome matches Ok(
                                InteractiveOutcome::Show(
                                    ThreadInteractiveRequest::Approval(
                                        ApprovalRequest::McpElicitation {
                                            thread_id,
                                            thread_label,
                                            server_name,
                                            request_id,
                                            message,
                                        },
                                    ),
                                ),
                            )
                            &&& thread_id@ == thread
                            &&& labels(thread_label, label)
                            &&& server_name == asked_server
                            &&& request_id == asked_id
                            &&& message == asked_message
                        },
                        _ => outcome == Ok::<_, String>(
                            InteractiveOutcome::Decline {
                                server_name: asked_server,
                                request_id: asked_id,
                            },
                        ),
                    }
                }
            },
            ServerRequest::PermissionsApproval {
                item_id: asked_item,
                environment_id: asked_environment,
                reason: asked_reason,
                permissions: asked_permissions,
            } => match asked_permissions {
                Err(error) => outcome matches Err(message) && message@ == localization_failure(
                    error@,
                ),
                Ok(native) => {
                    &&& outcome matches Ok(
                        InteractiveOutcome::Show(
                            ThreadInteractiveRequest::Approval(
                                ApprovalRequest::Permissions {
                                    thread_id,
                                    thread_label,
                                    call_id,
                                    environment_id,
                                    reason,
                                    permissions,
                                },
                            ),
                        ),
                    )
                    &&& thread_id@ == thread
                    &&& labels(thread_label, label)
                    &&& call_id == asked_item
                    &&& environment_id == asked_environment
                    &&& reason == asked_reason
                    &&& permissions == native
                },
            },
            ServerRequest::Other => outcome == Ok::<_, String>(InteractiveOutcome::Nothing),
        }
    }

    /// What becomes of a request of a thread.
    pub fn interactive_request_for_thread_request(
        &self,
        thread_id: &str,
        config_cwd: &String,
        request: &ServerRequest,
    ) -> (outcome: Result<InteractiveOutcome, String>)
        ensures
            self.interactive_step(thread_id@, *config_cwd, *request, outcome),
    {
        let thread_label: Option<String> = Some(self.thread_label(thread_id));
        let thread: String = String::from_str(thread_id);
        match request {
            ServerRequest::CommandExecutionApproval {
                item_id,
                approval_id,
                environment_id,
                command,
                reason,
                available_decisions,
                default_decisions,
                network_approval_context,
                additional_permissions,
            } => {
                let id: String = match approval_id {
                    Some(approval_id) => approval_id.clone(),
                    None => item_id.clone(),
                };
                let command: Vec<String> = match command {
                    Some(command) => copy_texts(command),
                    None => Vec::new(),
                };
                let available_decisions: Vec<String> = match available_decisions {
                    Some(decisions) => copy_texts(decisions),
                    None => copy_texts(default_decisions),
                };
                Ok(
                    InteractiveOutcome::Show(
                        ThreadInteractiveRequest::Approval(
                            ApprovalRequest::Exec {
                                thread_id: thread,
                                thread_label,
                                id,
                                environment_id: copy_option(environment_id),
                                command,
                                reason: copy_option(reason),
                                available_decisions,
                                network_approval_context: copy_option(network_approval_context),
                                additional_permissions: copy_option(additional_permissions),
                            },
                        ),
                    ),
                )
            },
            ServerRequest::FileChangeApproval { item_id, reason, changes } => {
                let cwd: String = match self.thread_cwd(thread_id) {
                    Some(cwd) => cwd,
                    None => config_cwd.clone(),
                };
                let changes: Vec<String> = match changes {
                    Some(changes) => copy_texts(changes),
                    None => Vec::new(),
                };
                Ok(
                    InteractiveOutcome::Show(
                        ThreadInteractiveRequest::Approval(
                            ApprovalRequest::ApplyPatch {
                                thread_id: thread,
                                thread_label,
                                id: item_id.clone(),
                                reason: copy_option(reason),
                                cwd,
                                changes,
                            },
                        ),
                    ),
                )
            },
            ServerRequest::McpServerElicitation {
                request_id,
                server_name,
                kind,
                is_app_link,
                is_form,
            } => {
                if *is_app_link {
                    return Ok(
                        InteractiveOutcome::Show(
                            ThreadInteractiveRequest::AppLink { request_id: request_id.clone() },
                        ),
                    );
                }
                if *is_form {
                    return Ok(
                        InteractiveOutcome::Show(
                            ThreadInteractiveRequest::McpServerElicitation {
                                request_id: request_id.clone(),
                            },
                        ),
                    );
                }
                match kind {
                    ElicitationKind::Form { message } => Ok(
                        InteractiveOutcome::Show(
                            ThreadInteractiveRequest::Approval(
                                ApprovalRequest::McpElicitation {
                                    thread_id: thread,
                                    thread_label,
                                    server_name: server_name.clone(),
                                    request_id: request_id.clone(),
                                    message: message.clone(),
                                },
                            ),
                        ),
                    ),
                    ElicitationKind::OpenAiForm | ElicitationKind::Url => Ok(
                        InteractiveOutcome::Decline {
                            server_name: server_name.clone(),
                            request_id: request_id.clone(),
                        },
                    ),
                }
            },
            ServerRequest::PermissionsApproval {
                item_id,
                environment_id,
                reason,
                permissions,
            } => match permissions {
                Err(error) => Err(
                    String::from_str("failed to localize requested filesystem paths: ").concat(
                        error.as_str(),
                    ),
                ),
                Ok(permissions) => Ok(
                    InteractiveOutcome::Show(
                        ThreadInteractiveRequest::Approval(
                            ApprovalRequest::Permissions {
                                thread_id: thread,
                                thread_label,
                                call_id: item_id.clone(),
                                environment_id: copy_option(environment_id),
                                reason: copy_option(reason),
                                permissions: permissions.clone(),
                            },
                        ),
                    ),
                ),
            },
            ServerRequest::Other => Ok(InteractiveOutcome::Nothing),
        }
    }
}

/// What the chat widget does to show a request.
pub enum InteractiveView {
    AppLink,
    /// The approval is asked for; a patch of another thread is shown in the history first.
    Approval { preview_patch: bool },
    McpServerElicitation,
}

/// A patch is previewed where its thread is named and it changes something.
pub open spec fn previews(request: ApprovalRequest) -> bool {
    request matches ApprovalRequest::ApplyPatch { thread_label, changes, .. } && thread_label is Some
        && changes@.len() > 0
}

impl App {
    fn render_inactive_patch_preview(request: &ApprovalRequest) -> (preview: bool)
        ensures
            preview == previews(*request),
    {
        match request {
            ApprovalRequest::ApplyPatch { thread_label, changes, .. } => thread_label.is_some()
                && changes.len() > 0,
            _ => false,
        }
    }

    /// How a request is shown.
    pub fn push_thread_interactive_request(request: &ThreadInteractiveRequest) -> (view:
        InteractiveView)
        ensures
            view == match *request {
                ThreadInteractiveRequest::AppLink { .. } => InteractiveView::AppLink,
                ThreadInteractiveRequest::Approval(approval) => InteractiveView::Approval {
                    preview_patch: previews(approval),
                },
                ThreadInteractiveRequest::McpServerElicitation {
                    ..
                } => InteractiveView::McpServerElicitation,
            },
    {
        match request {
            ThreadInteractiveRequest::AppLink { .. } => InteractiveView::AppLink,
            ThreadInteractiveRequest::Approval(approval) => InteractiveView::Approval {
                preview_patch: App::render_inactive_patch_preview(approval),
            },
            ThreadInteractiveRequest::McpServerElicitation { .. } => {
                InteractiveView::McpServerElicitation
            },
        }
    }
}

/// A request that waits: its thread and its identifier.
pub struct WaitingRequest {
    pub thread_id: String,
    pub request_id: String,
}

/// The requests that wait in the first channels, but for the shown thread's, in the order of the
/// channels and in each as they came.
pub open spec fn waiting_requests(
    channels: Seq<ThreadEventChannel>,
    shown: Option<String>,
    count: nat,
) -> Seq<(Seq<char>, Seq<char>)>
    decreases count,
{
    if count == 0 {
        Seq::empty()
    } else {
        let before = waiting_requests(channels, shown, (count - 1) as nat);
        let channel = channels[count - 1];
        if is_thread(shown, channel.thread_id@) {
            before
        } else {
            before + channel.pending_requests@.map_values(
                |id: String| (channel.thread_id@, id@),
            )
        }
    }
}

/// Waiting requests as plain values.
pub open spec fn request_views(requests: Seq<WaitingRequest>) -> Seq<(Seq<char>, Seq<char>)> {
    requests.map_values(|request: WaitingRequest| (request.thread_id@, request.request_id@))
}

impl App {
    /// The requests that wait in threads that are not shown.
    pub fn pending_inactive_thread_requests(&self) -> (requests: Vec<WaitingRequest>)
        ensures
            request_views(requests@) == waiting_requests(
                self.thread_event_channels@,
                self.active_thread_id,
                self.thread_event_channels@.len(),
            ),
    {
        let mut requests: Vec<WaitingRequest> = Vec::new();
        let mut i: usize = 0;
        while i < self.thread_event_channels.len()
            invariant
                i <= self.thread_event_channels@.len(),
                request_views(requests@) =~= waiting_requests(
                    self.thread_event_channels@,
                    self.active_thread_id,
                    i as nat,
                ),
            decreases self.thread_event_channels@.len() - i,
        {
            let channel: &ThreadEventChannel = &self.thread_event_channels[i];
            if !names_thread(&self.active_thread_id, channel.thread_id.as_str()) {
                let ghost before = request_views(requests@);
                let ghost waiting = channel.pending_requests@.map_values(
                    |id: String| (channel.thread_id@, id@),
                );
                let mut j: usize = 0;
                while j < channel.pending_requests.len()
                    invariant
                        j <= channel.pending_requests@.len(),
                        waiting == channel.pending_requests@.map_values(
                            |id: String| (channel.thread_id@, id@),
                        ),
                        request_views(requests@) =~= before + waiting.take(j as int),
                    decreases channel.pending_requests@.len() - j,
                {
                    let ghost known = requests@;
                    requests.push(
                        WaitingRequest {
                            thread_id: channel.thread_id.clone(),
                            request_id: channel.pending_requests[j].clone(),
                        },
                    );
                    assert(request_views(requests@) =~= request_views(known).push(
                        waiting[j as int],
                    ));
                    assert(waiting.take(j + 1) =~= waiting.take(j as int).push(waiting[j as int]));
                    j += 1;
                }
                assert(waiting.take(j as int) =~= waiting);
            }
            i += 1;
        }
        requests
    }

    /// The requests that are surfaced from threads that are not shown: none while a side
    /// conversation is shown.
    pub fn surface_pending_inactive_thread_interactive_requests(&self) -> (requests: Vec<
        WaitingRequest,
    >)
        ensures
            request_views(requests@) == if self.active_side_parent_thread_id is Some {
                Seq::<(Seq<char>, Seq<char>)>::empty()
            } else {
                waiting_requests(
                    self.thread_event_channels@,
                    self.active_thread_id,
                    self.thread_event_channels@.len(),
                )
            },
    {
        if self.active_side_parent_thread_id.is_some() {
            let requests: Vec<WaitingRequest> = Vec::new();
            assert(request_views(requests@) =~= Seq::<(Seq<char>, Seq<char>)>::empty());
            requests
        } else {
            self.pending_inactive_thread_requests()
        }
    }
}

/// The channel's thread waits for an approval, and is neither the shown thread nor the one whose
/// side conversation is shown.
pub open spec fn awaits_approval(app: App, channel: ThreadEventChannel) -> bool {
    channel.has_pending_approvals && !is_thread(app.active_thread_id, channel.thread_id@)
        && !is_thread(app.active_side_parent_thread_id, channel.thread_id@)
}

/// The threads of the first channels that wait for an approval.
pub open spec fn approval_threads(app: App, count: nat) -> Seq<Seq<char>>
    decreases count,
{
    if count == 0 {
        Seq::empty()
    } else {
        let before = approval_threads(app, (count - 1) as nat);
        let channel = app.thread_event_channels@[count - 1];
        if awaits_approval(app, channel) {
            before.push(channel.thread_id@)
        } else {
            before
        }
    }
}

/// `a` comes before `b` in the order of their characters, or is `b`.
pub open spec fn text_le(a: Seq<char>, b: Seq<char>) -> bool
    decreases a.len(),
{
    if a.len() == 0 {
        true
    } else if b.len() == 0 {
        false
    } else if a[0] == b[0] {
        text_le(a.skip(1), b.skip(1))
    } else {
        a[0] < b[0]
    }
}

/// The texts come in order.
pub open spec fn texts_sorted(texts: Seq<Seq<char>>) -> bool {
    forall|i: int, j: int|
        #![trigger texts[i], texts[j]]
        0 <= i <= j < texts.len() ==> text_le(texts[i], texts[j])
}

proof fn text_le_reflexive(a: Seq<char>)
    ensures
        text_le(a, a),
    decreases a.len(),
{
    if a.len() > 0 {
        text_le_reflexive(a.skip(1));
    }
}

proof fn text_le_total(a: Seq<char>, b: Seq<char>)
    ensures
        text_le(a, b) || text_le(b, a),
    decreases a.len(),
{
    if a.len() > 0 && b.len() > 0 && a[0] == b[0] {
        text_le_total(a.skip(1), b.skip(1));
    }
}

proof fn text_le_transitive(a: Seq<char>, b: Seq<char>, c: Seq<char>)
    requires
        text_le(a, b),
        text_le(b, c),
    ensures
        text_le(a, c),
    decreases a.len(),
{
    if a.len() > 0 && b.len() > 0 && c.len() > 0 {
        if a[0] == b[0] && b[0] == c[0] {
            text_le_transitive(a.skip(1), b.skip(1), c.skip(1));
        }
    }
}

/// `true` exactly when `a` comes before `b` in the order of their characters, or is `b`.
fn text_not_after(a: &str, b: &str) -> (ordered: bool)
    ensures
        ordered == text_le(a@, b@),
{
    let a_len: usize = a.unicode_len();
    let b_len: usize = b.unicode_len();
    let mut i: usize = 0;
    assert(a@.skip(0) =~= a@);
    assert(b@.skip(0) =~= b@);
    while i < a_len && i < b_len
        invariant
            a_len == a@.len(),
            b_len == b@.len(),
            i <= a_len,
            i <= b_len,
            text_le(a@, b@) == text_le(a@.skip(i as int), b@.skip(i as int)),
        decreases a_len - i,
    {
        let x: char = a.get_char(i);
        let y: char = b.get_char(i);
        let ghost rest_a = a@.skip(i as int);
        let ghost rest_b = b@.skip(i as int);
        assert(rest_a.skip(1) =~= a@.skip(i + 1));
        assert(rest_b.skip(1) =~= b@.skip(i + 1));
        if x != y {
            return x < y;
        }
        i += 1;
    }
    i >= a_len
}

/// Texts as plain values.
pub open spec fn text_views(texts: Seq<String>) -> Seq<Seq<char>> {
    texts.map_values(|text: String| text@)
}

/// A text goes in order where all before it are not after it, and all from there on are.
proof fn inserted_sorted(texts: Seq<Seq<char>>, at: int, text: Seq<char>)
    requires
        texts_sorted(texts),
        0 <= at <= texts.len(),
        forall|i: int| 0 <= i < at ==> text_le(#[trigger] texts[i], text),
        at < texts.len() ==> !text_le(texts[at], text),
    ensures
        texts_sorted(texts.insert(at, text)),
{
    let grown = texts.insert(at, text);
    if at < texts.len() {
        text_le_total(texts[at], text);
    }
    text_le_reflexive(text);
    assert forall|i: int, j: int|
        #![trigger grown[i], grown[j]]
        0 <= i <= j < grown.len() implies text_le(grown[i], grown[j]) by {
        if i < at && j > at {
            assert(grown[j] == texts[j - 1]);
            assert(text_le(texts[i], texts[j - 1]));
        } else if i == at && j > at {
            assert(grown[j] == texts[j - 1]);
            assert(text_le(texts[at], texts[j - 1]));
            text_le_transitive(text, texts[at], texts[j - 1]);
        } else if i > at {
            assert(text_le(texts[i - 1], texts[j - 1]));
        }
    }
}

fn insert_in_order(texts: &mut Vec<String>, text: String)
    requires
        texts_sorted(text_views(old(texts)@)),
    ensures
        texts_sorted(text_views(final(texts)@)),
        text_views(final(texts)@).to_multiset() == text_views(old(texts)@).to_multiset().insert(
            text@,
        ),
{
    let len: usize = texts.len();
    let mut at: usize = 0;
    while at < len && text_not_after(texts[at].as_str(), text.as_str())
        invariant
            len == texts@.len(),
            at <= len,
            forall|i: int| 0 <= i < at ==> text_le(#[trigger] text_views(texts@)[i], text@),
        decreases len - at,
    {
        at += 1;
    }
    let ghost before = text_views(texts@);
    proof {
        inserted_sorted(before, at as int, text@);
        vstd::seq_lib::to_multiset_insert(before, at as int, text@);
    }
    texts.insert(at, text);
    assert(text_views(texts@) =~= before.insert(at as int, text@));
}

impl App {
    /// The labels are those of the threads that wait for an approval, in the order of the
    /// threads' names.
    pub open spec fn approval_labels(self, labels: Seq<String>) -> bool {
        exists|threads: Seq<Seq<char>>|
            {
                &&& #[trigger] texts_sorted(threads)
                &&& threads.to_multiset() == approval_threads(
                    self,
                    self.thread_event_channels@.len(),
                ).to_multiset()
                &&& text_views(labels) == threads.map_values(
                    |thread_id: Seq<char>| self.label_of(thread_id),
                )
            }
    }

    /// The labels of the threads that wait for an approval.
    pub fn refresh_pending_thread_approvals(&self) -> (labels: Vec<String>)
        ensures
            self.approval_labels(labels@),
    {
        let mut threads: Vec<String> = Vec::new();
        let mut i: usize = 0;
        assert(text_views(threads@) =~= Seq::<Seq<char>>::empty());
        while i < self.thread_event_channels.len()
            invariant
                i <= self.thread_event_channels@.len(),
                texts_sorted(text_views(threads@)),
                text_views(threads@).to_multiset() == approval_threads(
                    *self,
                    i as nat,
                ).to_multiset(),
            decreases self.thread_event_channels@.len() - i,
        {
            let channel: &ThreadEventChannel = &self.thread_event_channels[i];
            if channel.has_pending_approvals && !names_thread(
                &self.active_thread_id,
                channel.thread_id.as_str(),
            ) && !names_thread(&self.active_side_parent_thread_id, channel.thread_id.as_str()) {
                insert_in_order(&mut threads, channel.thread_id.clone());
                proof {
                    vstd::seq_lib::to_multiset_build(
                        approval_threads(*self, i as nat),
                        channel.thread_id@,
                    );
                }
            }
            i += 1;
        }
        let ghost sorted = text_views(threads@);
        let mut labels: Vec<String> = Vec::new();
        let mut k: usize = 0;
        while k < threads.len()
            invariant
                k <= threads@.len(),
                labels@.len() == k,
                sorted == text_views(threads@),
                forall|j: int| 0 <= j < k ==> (#[trigger] labels@[j])@ == self.label_of(sorted[j]),
            decreases threads@.len() - k,
        {
            labels.push(self.thread_label(threads[k].as_str()));
            k += 1;
        }
        assert(text_views(labels@) =~= sorted.map_values(
            |thread_id: Seq<char>| self.label_of(thread_id),
        ));
        labels
    }
}

} // verus!
