//! What the user is asked for which request, and under which name the answer goes back.
use crate::interactive::{
    approval_threads, awaits_approval, request_views, same_texts, text_views, texts_sorted,
    waiting_requests, ApprovalRequest, ElicitationKind, InteractiveOutcome, InteractiveView,
    ServerRequest, ThreadInteractiveRequest, WaitingRequest,
};
use crate::routing::{App, ThreadEventChannel};
use vstd::prelude::*;
use vstd::string::*;

verus! {

/// A request to change files is put to the user as the patch of the item that asked: the answer
/// goes back under that item's identifier, in the thread that asked, so that two items of one
/// thread are answered under two identifiers. What is shown is what the thread knows of the item.
pub proof fn a_patch_is_answered_under_its_item(
    app: App,
    thread_id: &str,
    config_cwd: String,
    item_id: String,
    reason: Option<String>,
    changes: Option<Vec<String>>,
    label: String,
    outcome: Result<InteractiveOutcome, String>,
)
    requires
        call_ensures(App::thread_label, (&app, thread_id), label),
        call_ensures(
            App::interactive_request_for_thread_request,
            (
                &app,
                thread_id,
                &config_cwd,
                &(ServerRequest::FileChangeApproval { item_id, reason, changes }),
            ),
            outcome,
        ),
    ensures
        outcome matches Ok(
            InteractiveOutcome::Show(
                ThreadInteractiveRequest::Approval(
                    ApprovalRequest::ApplyPatch {
                        thread_id: thread,
                        thread_label,
                        id,
                        reason: shown_reason,
                        changes: shown_changes,
                        ..
                    },
                ),
            ),
        ) && {
            &&& id == item_id
            &&& thread@ == thread_id@
            &&& thread_label is Some
            &&& thread_label->0@ == label@
            &&& shown_reason == reason
            &&& match changes {
                Some(known) => same_texts(shown_changes@, known@),
                None => shown_changes@.len() == 0,
            }
        },
{
}

/// Requests for two items are shown under two identifiers.
pub proof fn patches_of_two_items_are_told_apart(
    app: App,
    thread_id: &str,
    config_cwd: String,
    a: ServerRequest,
    b: ServerRequest,
    shown_a: Result<InteractiveOutcome, String>,
    shown_b: Result<InteractiveOutcome, String>,
)
    requires
        a is FileChangeApproval,
        b is FileChangeApproval,
        a->FileChangeApproval_item_id != b->FileChangeApproval_item_id,
        call_ensures(
            App::interactive_request_for_thread_request,
            (&app, thread_id, &config_cwd, &a),
            shown_a,
        ),
        call_ensures(
            App::interactive_request_for_thread_request,
            (&app, thread_id, &config_cwd, &b),
            shown_b,
        ),
    ensures
        match (shown_a, shown_b) {
            (
                Ok(
                    InteractiveOutcome::Show(
                        ThreadInteractiveRequest::Approval(
                            ApprovalRequest::ApplyPatch { id: id_a, .. },
                        ),
                    ),
                ),
                Ok(
                    InteractiveOutcome::Show(
                        ThreadInteractiveRequest::Approval(
                            ApprovalRequest::ApplyPatch { id: id_b, .. },
                        ),
                    ),
                ),
            ) => id_a != id_b,
            _ => false,
        },
{
}

/// A patch is shown in the working directory of its thread, or in the configured one where the
/// thread's is not known.
pub proof fn a_patch_is_shown_where_its_thread_works(
    app: App,
    thread_id: &str,
    config_cwd: String,
    request: ServerRequest,
    known: Option<String>,
    outcome: Result<InteractiveOutcome, String>,
)
    requires
        request is FileChangeApproval,
        call_ensures(App::thread_cwd, (&app, thread_id), known),
        call_ensures(
            App::interactive_request_for_thread_request,
            (&app, thread_id, &config_cwd, &request),
            outcome,
        ),
    ensures
        outcome matches Ok(
            InteractiveOutcome::Show(
                ThreadInteractiveRequest::Approval(ApprovalRequest::ApplyPatch { cwd, .. }),
            ),
        ) && cwd == (match known {
            Some(directory) => directory,
            None => config_cwd,
        }),
{
}

/// A command is put to the user as it was asked for, with the decisions that are offered, or the
/// default ones. The answer goes back under the approval's own identifier where it has one, else
/// under the item's.
pub proof fn a_command_is_answered_under_its_approval(
    app: App,
    thread_id: &str,
    config_cwd: String,
    request: ServerRequest,
    label: String,
    outcome: Result<InteractiveOutcome, String>,
)
    requires
        call_ensures(App::thread_label, (&app, thread_id), label),
        call_ensures(
            App::interactive_request_for_thread_request,
            (&app, thread_id, &config_cwd, &request),
            outcome,
        ),
    ensures
        request matches ServerRequest::CommandExecutionApproval {
            item_id,
            approval_id,
            environment_id,
            command,
            reason,
            available_decisions,
            default_decisions,
            network_approval_context,
            additional_permissions,
        } ==> (outcome matches Ok(
            InteractiveOutcome::Show(
                ThreadInteractiveRequest::Approval(
                    ApprovalRequest::Exec {
                        thread_id: thread,
                        thread_label,
                        id,
                        environment_id: environment,
                        command: words,
                        reason: shown_reason,
                        available_decisions: decisions,
                        network_approval_context: network,
                        additional_permissions: permissions,
                    },
                ),
            ),
        ) && {
            &&& approval_id matches Some(approval) ==> id == approval
            &&& approval_id is None ==> id == item_id
            &&& thread@ == thread_id@
            &&& thread_label is Some
            &&& thread_label->0@ == label@
            &&& environment == environment_id
            &&& shown_reason == reason
            &&& network == network_approval_context
            &&& permissions == additional_permissions
            &&& match command {
                Some(asked) => same_texts(words@, asked@),
                None => words@.len() == 0,
            }
            &&& match available_decisions {
                Some(offered) => same_texts(decisions@, offered@),
                None => same_texts(decisions@, default_decisions@),
            }
        }),
{
}

/// Permissions are put to the user as they were asked for, under the item that asked; where they
/// could not be read, nothing is shown and the failure says why.
pub proof fn permissions_are_answered_under_their_item(
    app: App,
    thread_id: &str,
    config_cwd: String,
    item_id: String,
    environment_id: Option<String>,
    reason: Option<String>,
    permissions: Result<String, String>,
    label: String,
    outcome: Result<InteractiveOutcome, String>,
)
    requires
        call_ensures(App::thread_label, (&app, thread_id), label),
        call_ensures(
            App::interactive_request_for_thread_request,
            (
                &app,
                thread_id,
                &config_cwd,
                &(ServerRequest::PermissionsApproval {
                    item_id,
                    environment_id,
                    reason,
                    permissions,
                }),
            ),
            outcome,
        ),
    ensures
        outcome is Ok <==> permissions is Ok,
        permissions matches Ok(native) ==> (outcome matches Ok(
            InteractiveOutcome::Show(
                ThreadInteractiveRequest::Approval(
                    ApprovalRequest::Permissions {
                        thread_id: thread,
                        thread_label,
                        call_id,
                        environment_id: environment,
                        reason: shown_reason,
                        permissions: shown,
                    },
                ),
            ),
        ) && {
            &&& call_id == item_id
            &&& thread@ == thread_id@
            &&& thread_label is Some
            &&& thread_label->0@ == label@
            &&& environment == environment_id
            &&& shown_reason == reason
            &&& shown == native
        }),
        permissions matches Err(error) ==> (outcome matches Err(message) && error@.is_suffix_of(
            message@,
        )),
{
    if let (Err(error), Err(message)) = (permissions, outcome) {
        let text = message@;
        assert(error@ =~= text.subrange(text.len() - error@.len(), text.len() as int));
    }
}

/// An elicitation goes back under its own identifier, however it is shown: as a link where it is
/// one, else as a form where it is one, else by its message. It is declined, to the server that
/// asked, exactly where it can be shown in none of these ways.
pub proof fn an_elicitation_is_shown_or_declined(
    app: App,
    thread_id: &str,
    config_cwd: String,
    request_id: String,
    server_name: String,
    kind: ElicitationKind,
    is_app_link: bool,
    is_form: bool,
    label: String,
    outcome: Result<InteractiveOutcome, String>,
)
    requires
        call_ensures(App::thread_label, (&app, thread_id), label),
        call_ensures(
            App::interactive_request_for_thread_request,
            (
                &app,
                thread_id,
                &config_cwd,
                &(ServerRequest::McpServerElicitation {
                    request_id,
                    server_name,
                    kind,
                    is_app_link,
                    is_form,
                }),
            ),
            outcome,
        ),
    ensures
        match outcome {
            Ok(InteractiveOutcome::Show(ThreadInteractiveRequest::AppLink { request_id: id })) => id
                == request_id && is_app_link,
            Ok(
                InteractiveOutcome::Show(
                    ThreadInteractiveRequest::McpServerElicitation { request_id: id },
                ),
            ) => id == request_id && is_form && !is_app_link,
            Ok(
                InteractiveOutcome::Show(
                    ThreadInteractiveRequest::Approval(
                        ApprovalRequest::McpElicitation {
                            thread_id: thread,
                            thread_label,
                            server_name: server,
                            request_id: id,
                            message,
                        },
                    ),
                ),
            ) => {
                &&& id == request_id
                &&& server == server_name
                &&& thread@ == thread_id@
                &&& thread_label is Some
                &&& thread_label->0@ == label@
                &&& !is_app_link && !is_form
                &&& kind matches ElicitationKind::Form { message: asked } && asked == message
            },
            Ok(InteractiveOutcome::Decline { server_name: server, request_id: id }) => {
                &&& id == request_id
                &&& server == server_name
                &&& !is_app_link && !is_form
                &&& !(kind is Form)
            },
            _ => false,
        },
{
}

/// The user has nothing to do with other requests, and with those only.
pub proof fn only_questions_reach_the_user(
    app: App,
    thread_id: &str,
    config_cwd: String,
    request: ServerRequest,
    outcome: Result<InteractiveOutcome, String>,
)
    requires
        call_ensures(
            App::interactive_request_for_thread_request,
            (&app, thread_id, &config_cwd, &request),
            outcome,
        ),
    ensures
        outcome matches Ok(shown) ==> (shown is Nothing <==> request is Other),
        request is Other ==> outcome is Ok,
        outcome matches Ok(InteractiveOutcome::Decline { .. }) ==> request is McpServerElicitation,
{
}

/// The working directory of a thread is that of its session, where one is known.
pub proof fn a_thread_works_where_its_session_does(app: App, thread_id: &str, cwd: Option<String>)
    requires
        call_ensures(App::thread_cwd, (&app, thread_id), cwd),
    ensures
        cwd is Some <==> app.has_channel(thread_id@) && app.channel(thread_id@).session is Some,
        cwd is Some ==> cwd->0 == app.channel(thread_id@).session->0.cwd,
{
}

/// What is asked decides how it is shown; a patch is previewed only where its thread is named and
/// it changes something.
pub proof fn only_a_patch_is_previewed(request: ThreadInteractiveRequest, view: InteractiveView)
    requires
        call_ensures(App::push_thread_interactive_request, (&request,), view),
    ensures
        view is AppLink <==> request is AppLink,
        view is McpServerElicitation <==> request is McpServerElicitation,
        view is Approval <==> request is Approval,
        view matches InteractiveView::Approval { preview_patch } ==> (preview_patch <==> (
        request matches ThreadInteractiveRequest::Approval(
            ApprovalRequest::ApplyPatch { thread_label, changes, .. },
        ) && thread_label is Some && changes@.len() > 0)),
{
}

/// The thread is the one that is shown.
pub open spec fn is_shown(app: App, channel: ThreadEventChannel) -> bool {
    app.active_thread_id matches Some(active) && active@ == channel.thread_id@
}

/// The request waits in a thread that is not shown.
pub open spec fn waits_unseen(app: App, thread_id: Seq<char>, request_id: Seq<char>) -> bool {
    exists|k: int, j: int|
        {
            &&& 0 <= k < app.thread_event_channels@.len()
            &&& 0 <= j < app.thread_event_channels@[k].pending_requests@.len()
            &&& !is_shown(app, app.thread_event_channels@[k])
            &&& app.thread_event_channels@[k].thread_id@ == thread_id
            &&& (#[trigger] app.thread_event_channels@[k].pending_requests@[j])@ == request_id
        }
}

proof fn waiting_are(app: App, count: nat, pair: (Seq<char>, Seq<char>))
    requires
        count <= app.thread_event_channels@.len(),
    ensures
        waiting_requests(app.thread_event_channels@, app.active_thread_id, count).contains(pair)
            <==> exists|k: int, j: int|
            {
                &&& 0 <= k < count
                &&& 0 <= j < app.thread_event_channels@[k].pending_requests@.len()
                &&& !is_shown(app, app.thread_event_channels@[k])
                &&& app.thread_event_channels@[k].thread_id@ == pair.0
                &&& (#[trigger] app.thread_event_channels@[k].pending_requests@[j])@ == pair.1
            },
    decreases count,
{
    let channels = app.thread_event_channels@;
    let list = waiting_requests(channels, app.active_thread_id, count);
    if count > 0 {
        waiting_are(app, (count - 1) as nat, pair);
        let before = waiting_requests(channels, app.active_thread_id, (count - 1) as nat);
        let channel = channels[count - 1];
        let own = channel.pending_requests@.map_values(|id: String| (channel.thread_id@, id@));
        if !is_shown(app, channel) {
            assert(list == before + own);
            if before.contains(pair) {
                let i = choose|i: int| 0 <= i < before.len() && before[i] == pair;
                assert(list[i] == pair);
            }
            if own.contains(pair) {
                let i = choose|i: int| 0 <= i < own.len() && own[i] == pair;
                assert(list[before.len() + i] == pair);
                assert(channel.pending_requests@[i]@ == pair.1);
            }
            if list.contains(pair) {
                let i = choose|i: int| 0 <= i < list.len() && list[i] == pair;
                if i < before.len() {
                    assert(before[i] == pair);
                } else {
                    assert(own[i - before.len()] == pair);
                }
            }
            if exists|j: int|
                0 <= j < channel.pending_requests@.len() && channel.thread_id@ == pair.0 && (
                #[trigger] channel.pending_requests@[j])@ == pair.1 {
                let j = choose|j: int|
                    0 <= j < channel.pending_requests@.len() && channel.thread_id@ == pair.0 && (
                    #[trigger] channel.pending_requests@[j])@ == pair.1;
                assert(own[j] == pair);
                assert(list[before.len() + j] == pair);
            }
        }
    }
}

/// Exactly the requests that wait in threads that are not shown are listed, each under its thread.
/// They are surfaced unless a side conversation is shown, and then none is.
pub proof fn requests_of_hidden_threads_are_listed(
    app: App,
    requests: Vec<WaitingRequest>,
    surfaced: Vec<WaitingRequest>,
    thread_id: Seq<char>,
    request_id: Seq<char>,
)
    requires
        call_ensures(App::pending_inactive_thread_requests, (&app,), requests),
        call_ensures(
            App::surface_pending_inactive_thread_interactive_requests,
            (&app,),
            surfaced,
        ),
    ensures
        request_views(requests@).contains((thread_id, request_id)) <==> waits_unseen(
            app,
            thread_id,
            request_id,
        ),
        app.active_side_parent_thread_id is Some ==> surfaced@.len() == 0,
        app.active_side_parent_thread_id is None ==> request_views(surfaced@) == request_views(
            requests@,
        ),
{
    waiting_are(app, app.thread_event_channels@.len(), (thread_id, request_id));
    assert(request_views(surfaced@).len() == surfaced@.len());
}

/// The thread waits for an approval where the user does not see it: it is neither shown nor the
/// one that the shown side conversation belongs to.
pub open spec fn awaits_unseen(app: App, channel: ThreadEventChannel) -> bool {
    &&& channel.has_pending_approvals
    &&& !is_shown(app, channel)
    &&& !(app.active_side_parent_thread_id matches Some(parent) && parent@ == channel.thread_id@)
}

/// The threads that wait unseen, as they come.
pub open spec fn waiting_threads(app: App) -> Seq<Seq<char>> {
    app.thread_event_channels@.filter(|channel: ThreadEventChannel| awaits_unseen(app, channel))
        .map_values(|channel: ThreadEventChannel| channel.thread_id@)
}

proof fn approvals_filter(app: App, count: nat)
    requires
        count <= app.thread_event_channels@.len(),
    ensures
        approval_threads(app, count) == app.thread_event_channels@.take(count as int).filter(
            |channel: ThreadEventChannel| awaits_unseen(app, channel),
        ).map_values(|channel: ThreadEventChannel| channel.thread_id@),
    decreases count,
{
    reveal(Seq::filter);
    let pred = |channel: ThreadEventChannel| awaits_unseen(app, channel);
    let name = |channel: ThreadEventChannel| channel.thread_id@;
    let some = app.thread_event_channels@.take(count as int);
    if count == 0 {
        assert(approval_threads(app, 0) =~= some.filter(pred).map_values(name));
    } else {
        approvals_filter(app, (count - 1) as nat);
        assert(some.drop_last() =~= app.thread_event_channels@.take(count - 1));
        assert(approval_threads(app, count) =~= some.filter(pred).map_values(name));
    }
}

/// The user is told of exactly the threads that wait for an approval unseen, one label for each,
/// in the order of their names.
pub proof fn waiting_threads_are_told_of(
    app: App,
    labels: Vec<String>,
    thread_id: &str,
    label: String,
)
    requires
        call_ensures(App::refresh_pending_thread_approvals, (&app,), labels),
        call_ensures(App::thread_label, (&app, thread_id), label),
    ensures
        labels@.len() == waiting_threads(app).len(),
        waiting_threads(app).contains(thread_id@) ==> text_views(labels@).contains(label@),
        exists|threads: Seq<Seq<char>>|
            {
                &&& #[trigger] texts_sorted(threads)
                &&& threads.to_multiset() == waiting_threads(app).to_multiset()
                &&& text_views(labels@) == threads.map_values(
                    |thread: Seq<char>| app.label_of(thread),
                )
            },
{
    approvals_filter(app, app.thread_event_channels@.len());
    assert(app.thread_event_channels@.take(app.thread_event_channels@.len() as int)
        =~= app.thread_event_channels@);
    let waiting = waiting_threads(app);
    let threads = choose|threads: Seq<Seq<char>>|
        {
            &&& #[trigger] texts_sorted(threads)
            &&& threads.to_multiset() == approval_threads(
                app,
                app.thread_event_channels@.len(),
            ).to_multiset()
            &&& text_views(labels@) == threads.map_values(
                |thread_id: Seq<char>| app.label_of(thread_id),
            )
        };
    assert(threads.to_multiset() == waiting.to_multiset());
    waiting.to_multiset_ensures();
    threads.to_multiset_ensures();
    assert(text_views(labels@).len() == labels@.len());
    if waiting.contains(thread_id@) {
        assert(waiting.to_multiset().count(thread_id@) > 0);
        assert(threads.contains(thread_id@));
        let i = choose|i: int| 0 <= i < threads.len() && threads[i] == thread_id@;
        assert(text_views(labels@)[i] == label@);
    }
    assert(text_views(labels@) =~= threads.map_values(|thread: Seq<char>| app.label_of(thread)));
}

/// Permissions whose paths cannot be read are refused in so many words.
pub proof fn unreadable_permissions_are_told_of(
    app: App,
    thread_id: &str,
    config_cwd: String,
    item_id: String,
    environment_id: Option<String>,
    reason: Option<String>,
    error: String,
    outcome: Result<InteractiveOutcome, String>,
)
    requires
        call_ensures(
            App::interactive_request_for_thread_request,
            (
                &app,
                thread_id,
                &config_cwd,
                &(ServerRequest::PermissionsApproval {
                    item_id,
                    environment_id,
                    reason,
                    permissions: Err(error),
                }),
            ),
            outcome,
        ),
    ensures
        outcome matches Err(told) && told@ == "failed to localize requested filesystem paths: "@
            + error@,
{
}

} // verus!
