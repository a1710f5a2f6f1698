//! User turns: what is sent of one, and under which settings it starts.
use crate::routing::App;
use crate::submission::{
    client_message_id, receipt_key, receipt_value, NativeComposerSubmission,
};
use crate::text::{copy_option, copy_texts};
use vstd::prelude::*;
use vstd::string::*;

verus! {

/// One item of a user turn.
pub enum UserInput {
    Text(String),
    /// Anything but plain text, as the host encodes it.
    Encoded(String),
}

/// A user turn. Settings are named by their canonical text.
pub struct UserTurn {
    pub items: Vec<UserInput>,
    pub cwd: String,
    pub approval_policy: String,
    pub approvals_reviewer: Option<String>,
    pub active_permission_profile: Option<String>,
    pub model: String,
    pub effort: Option<String>,
    pub summary: Option<String>,
    pub service_tier: Option<String>,
    pub final_output_json_schema: Option<String>,
    pub collaboration_mode: Option<String>,
    pub personality: Option<String>,
    pub composer_submission: Option<NativeComposerSubmission>,
}

/// The configuration that a turn starts under.
pub struct TurnConfig {
    pub approvals_reviewer: String,
    /// The permission profile that is in effect.
    pub effective_permission_profile: String,
    /// A profile that was chosen at run time, for the workspace as it is.
    pub runtime_permission_profile_override: Option<String>,
    pub user_visible_workspace_roots: Vec<String>,
}

/// Which permissions a new turn runs under. Profiles are named by their canonical text.
#[derive(Debug, PartialEq, Eq)]
pub enum TurnPermissionsOverride {
    /// The profile that is selected.
    ActiveProfile(String),
    /// The local profile, which the server does not know.
    LegacySandbox(String),
    /// What the server has stays.
    Preserve,
}

/// The message that a turn carries: under which client identity it is sent, and the receipt that
/// announces it.
pub struct TurnMessage {
    pub client_user_message_id: Option<String>,
    pub composer_receipt: Option<(String, String)>,
    pub items: Vec<UserInput>,
}

/// A turn that is to start.
pub struct NewTurn {
    pub message: TurnMessage,
    pub cwd: String,
    pub approval_policy: String,
    pub approvals_reviewer: String,
    pub permissions_override: TurnPermissionsOverride,
    pub workspace_roots: Vec<String>,
    pub model: String,
    pub effort: Option<String>,
    pub summary: Option<String>,
    pub service_tier: Option<String>,
    pub collaboration_mode: Option<String>,
    pub personality: Option<String>,
    pub final_output_json_schema: Option<String>,
}

/// The message is that of `turn`: its items, and the client identity and the receipt of its
/// submission, where it has one.
pub open spec fn carries(message: TurnMessage, turn: UserTurn) -> bool {
    &&& message.items@ == turn.items@
    &&& match turn.composer_submission {
        Some(submission) => {
            &&& message.client_user_message_id matches Some(client_id)
            &&& client_id@ == client_message_id(submission.submission_id)
            &&& message.composer_receipt matches Some(receipt)
            &&& receipt.0@ == receipt_key(submission.submission_id)
            &&& receipt.1@ == receipt_value(submission.submission_id)
        },
        None => message.client_user_message_id is None && message.composer_receipt is None,
    }
}

/// Which permissions a new turn runs under: a selected profile first, then a local override that
/// is in effect.
pub open spec fn permissions_override(
    active_permission_profile: Option<String>,
    effective_permission_profile: String,
    runtime_permission_profile_override: Option<String>,
) -> TurnPermissionsOverride {
    match (active_permission_profile, runtime_permission_profile_override) {
        (Some(active), _) => TurnPermissionsOverride::ActiveProfile(active),
        (None, Some(local)) if local@ == effective_permission_profile@ => {
            TurnPermissionsOverride::LegacySandbox(effective_permission_profile)
        },
        _ => TurnPermissionsOverride::Preserve,
    }
}

/// The turn starts with the message and the settings of `turn`. Who approves, where the turn names
/// nobody, the permissions and the workspace are those of `config`.
pub open spec fn starts(new_turn: NewTurn, turn: UserTurn, config: TurnConfig) -> bool {
    &&& carries(new_turn.message, turn)
    &&& new_turn.cwd == turn.cwd
    &&& new_turn.approval_policy == turn.approval_policy
    &&& new_turn.approvals_reviewer == (match turn.approvals_reviewer {
        Some(approver) => approver,
        None => config.approvals_reviewer,
    })
    &&& new_turn.permissions_override == permissions_override(
        turn.active_permission_profile,
        config.effective_permission_profile,
        config.runtime_permission_profile_override,
    )
    &&& new_turn.workspace_roots@ == config.user_visible_workspace_roots@
    &&& new_turn.model == turn.model
    &&& new_turn.effort == turn.effort
    &&& new_turn.summary == turn.summary
    &&& new_turn.service_tier == turn.service_tier
    &&& new_turn.collaboration_mode == turn.collaboration_mode
    &&& new_turn.personality == turn.personality
    &&& new_turn.final_output_json_schema == turn.final_output_json_schema
}

fn copy_items(items: &Vec<UserInput>) -> (copy: Vec<UserInput>)
    ensures
        copy@ == items@,
{
    let mut copy: Vec<UserInput> = Vec::new();
    let mut i: usize = 0;
    while i < items.len()
        invariant
            i <= items@.len(),
            copy@ == items@.take(i as int),
        decreases items@.len() - i,
    {
        copy.push(
            match &items[i] {
                UserInput::Text(text) => UserInput::Text(text.clone()),
                UserInput::Encoded(item) => UserInput::Encoded(item.clone()),
            },
        );
        assert(copy@ =~= items@.take(i as int + 1));
        i += 1;
    }
    assert(copy@ =~= items@);
    copy
}

impl UserTurn {
    /// What is sent of the turn, into a running turn or a new one.
    pub fn message(&self) -> (message: TurnMessage)
        ensures
            carries(message, *self),
    {
        let items: Vec<UserInput> = copy_items(&self.items);
        match &self.composer_submission {
            Some(submission) => TurnMessage {
                client_user_message_id: Some(submission.client_user_message_id()),
                composer_receipt: Some(submission.receipt_context()),
                items,
            },
            None => TurnMessage { client_user_message_id: None, composer_receipt: None, items },
        }
    }

    /// The turn as it is started under `config`.
    pub fn new_turn(&self, config: &TurnConfig) -> (new_turn: NewTurn)
        ensures
            starts(new_turn, *self, *config),
    {
        NewTurn {
            message: self.message(),
            cwd: self.cwd.clone(),
            approval_policy: self.approval_policy.clone(),
            approvals_reviewer: match &self.approvals_reviewer {
                Some(approver) => approver.clone(),
                None => config.approvals_reviewer.clone(),
            },
            permissions_override: App::turn_permissions_override_from_config(
                &self.active_permission_profile,
                &config.effective_permission_profile,
                &config.runtime_permission_profile_override,
            ),
            workspace_roots: copy_texts(&config.user_visible_workspace_roots),
            model: self.model.clone(),
            effort: copy_option(&self.effort),
            summary: copy_option(&self.summary),
            service_tier: copy_option(&self.service_tier),
            collaboration_mode: copy_option(&self.collaboration_mode),
            personality: copy_option(&self.personality),
            final_output_json_schema: copy_option(&self.final_output_json_schema),
        }
    }
}

} // verus!
