//! The `custom` notify backend: an operator's script, told of the event by its
//! environment and on its stdin.

use super::event::{writes, NotifyEvent};
use super::{NotifyBackend, NotifyError, NotifyErrorModel};
use crate::ipam::custom::ScriptRequest;

use crate::script::{complaint, ScriptHook, ScriptRun};
use crate::text::{cat2, joined, texts, trimmed};
use vstd::prelude::*;
use vstd::string::*;

verus! {

/// One `[notify.custom.<name>]` entry.
#[derive(Debug, Clone, PartialEq, Eq)]
pub struct CustomNotifyConfig {
    pub script_path: String,
    pub args: Vec<String>,
    pub timeout_ms: u64,
    pub events: Vec<String>,
}

impl Default for CustomNotifyConfig {
    fn default() -> (r: CustomNotifyConfig)
        ensures
            r.script_path@.len() == 0,
            r.args@.len() == 0,
            r.timeout_ms == 5000,
            texts(r.events@) == super::event::all_kinds(),
    {
        CustomNotifyConfig {
            script_path: String::new(),
            args: Vec::new(),
            timeout_ms: 5000,
            events: super::every_kind(),
        }
    }
}

/// Runs a script to deliver a notification.
#[derive(Debug, Clone, PartialEq, Eq)]
pub struct CustomScriptNotifier {
    pub hook: ScriptHook,
}

/// Why an entry gives no notifier.
pub open spec fn custom_fault(cfg: CustomNotifyConfig) -> Option<Seq<char>> {
    if trimmed(cfg.script_path@).len() == 0 {
        Some(
            "notify.custom is enabled but notify.custom.script_path is empty; provide a path to an executable script or remove `custom` from notify.enabled"@,
        )
    } else {
        None
    }
}

/// Whether a notifier is the one an entry asks for.
pub open spec fn custom_built(notifier: CustomScriptNotifier, cfg: CustomNotifyConfig) -> bool {
    &&& notifier.hook.path@ == cfg.script_path@
    &&& texts(notifier.hook.args@) == texts(cfg.args@)
    &&& notifier.hook.timeout_ms == cfg.timeout_ms
}

/// What a script is told in its environment about an absent value: nothing.
pub open spec fn or_empty(value: Option<Seq<char>>) -> Seq<char> {
    match value {
        Some(v) => v,
        None => Seq::empty(),
    }
}

fn text_or_empty(value: Option<&str>) -> (r: String)
    ensures
        r@ == match value {
            Some(v) => v@,
            None => Seq::empty(),
        },
{
    match value {
        Some(v) => v.to_owned(),
        None => String::new(),
    }
}

/// What the ending of a script says of the delivery.
pub open spec fn script_failure(run: ScriptRun) -> Option<NotifyErrorModel> {
    match run {
        ScriptRun::Failed(error) => Some(
            NotifyErrorModel { detail: "custom notify "@ + error@, retryable: true },
        ),
        ScriptRun::Finished(outcome) => if outcome.succeeded() {
            None
        } else {
            Some(
                NotifyErrorModel {
                    detail: complaint(outcome, "custom notify script"@),
                    retryable: true,
                },
            )
        },
    }
}

impl CustomScriptNotifier {
    /// Validates the configuration and creates the backend.
    pub fn from_config(cfg: &CustomNotifyConfig) -> (r: Result<CustomScriptNotifier, String>)
        ensures
            match r {
                Ok(notifier) => custom_fault(*cfg) is None && custom_built(notifier, *cfg),
                Err(e) => custom_fault(*cfg) == Some(e@),
            },
    {
        match ScriptHook::new(cfg.script_path.as_str(), &cfg.args, cfg.timeout_ms) {
            Some(hook) => Ok(CustomScriptNotifier { hook }),
            None => Err(
                "notify.custom is enabled but notify.custom.script_path is empty; provide a path to an executable script or remove `custom` from notify.enabled".to_owned(),
            ),
        }
    }

    /// What the script is told of an event.
    pub fn request(&self, event: &NotifyEvent) -> (r: ScriptRequest)
        ensures
            r.envs@.len() == 7,
            r.envs@[0].0@ == "ACME_NOTIFY_HOOK"@ && r.envs@[0].1@ == event@.kind,
            r.envs@[1].0@ == "ACME_NOTIFY_PROFILE"@ && event@.fields[0] == (
                "profile"@,
                super::event::FieldModel::Text(r.envs@[1].1@),
            ),
            r.envs@[2].0@ == "ACME_NOTIFY_CLIENT_IP"@ && r.envs@[2].1@ == or_empty(
                event.client_address(),
            ),
            r.envs@[3].0@ == "ACME_NOTIFY_ACCOUNT_ID"@ && r.envs@[3].1@ == or_empty(
                event.account(),
            ),
            r.envs@[4].0@ == "ACME_NOTIFY_ORDER_ID"@ && r.envs@[4].1@ == or_empty(event.order()),
            r.envs@[5].0@ == "ACME_NOTIFY_CERT_SERIAL"@ && r.envs@[5].1@ == or_empty(
                event.serial(),
            ),
            r.envs@[6].0@ == "ACME_NOTIFY_IDENTIFIERS"@ && r.envs@[6].1@ == joined(
                event.identifiers(),
                ","@,
            ),
            writes(r.payload, event@),
    {
        let mut envs: Vec<(String, String)> = Vec::new();
        envs.push(("ACME_NOTIFY_HOOK".to_owned(), event.kind().to_owned()));
        envs.push(("ACME_NOTIFY_PROFILE".to_owned(), event.profile().to_owned()));
        envs.push(("ACME_NOTIFY_CLIENT_IP".to_owned(), text_or_empty(event.client_ip())));
        envs.push(("ACME_NOTIFY_ACCOUNT_ID".to_owned(), text_or_empty(event.account_id())));
        envs.push(("ACME_NOTIFY_ORDER_ID".to_owned(), text_or_empty(event.order_id())));
        envs.push(("ACME_NOTIFY_CERT_SERIAL".to_owned(), text_or_empty(event.cert_serial())));
        envs.push(("ACME_NOTIFY_IDENTIFIERS".to_owned(), event.identifiers_joined()));
        ScriptRequest { envs, payload: event.payload() }
    }

    /// What the ending of the script says of the delivery: a script that fails,
    /// in whatever way, may succeed another time.
    pub fn send(&self, run: &ScriptRun) -> (r: Result<(), NotifyError>)
        ensures
            match script_failure(*run) {
                None => r is Ok,
                Some(failure) => r matches Err(e) && e@ == failure,
            },
    {
        match run {
            ScriptRun::Failed(error) => Err(
                NotifyError::new(cat2("custom notify ", error.as_str()).as_str()),
            ),
            ScriptRun::Finished(outcome) => {
                if outcome.success() {
                    Ok(())
                } else {
                    Err(
                        NotifyError::new(
                            ScriptHook::detail(outcome, "custom notify script").as_str(),
                        ),
                    )
                }
            },
        }
    }
}

impl NotifyBackend for CustomScriptNotifier {
    open spec fn channel(&self) -> Seq<char> {
        "custom"@
    }

    fn name(&self) -> (r: &'static str) {
        "custom"
    }
}

/// An entry gives a notifier exactly when its path is not blank, and the notifier
/// runs that script with those arguments for at most that long.
pub proof fn a_script_is_run_as_configured(
    cfg: CustomNotifyConfig,
    notifier: CustomScriptNotifier,
)
    ensures
        custom_fault(cfg) is None <==> trimmed(cfg.script_path@).len() > 0,
        trimmed(cfg.script_path@).len() == 0 ==> custom_fault(cfg) == Some(
            "notify.custom is enabled but notify.custom.script_path is empty; provide a path to an executable script or remove `custom` from notify.enabled"@,
        ),
        custom_built(notifier, cfg) ==> notifier.hook.path@ == cfg.script_path@ && texts(
            notifier.hook.args@,
        ) == texts(cfg.args@) && notifier.hook.timeout_ms == cfg.timeout_ms,
{
}

/// A delivery by a script fails exactly when the script did not end with 0, and may
/// then always be tried again.
pub proof fn a_script_delivers_by_ending_well(run: ScriptRun)
    ensures
        script_failure(run) is None <==> (run matches ScriptRun::Finished(outcome)
            && outcome.code == Some(0i32)),
        script_failure(run) matches Some(failure) ==> failure.retryable,
        run matches ScriptRun::Failed(error) ==> script_failure(run)->Some_0.detail
            == "custom notify "@ + error@,
        run matches ScriptRun::Finished(outcome) && outcome.code != Some(0i32) ==> script_failure(
            run,
        )->Some_0.detail == complaint(run->Finished_0, "custom notify script"@),
{
}

/// An absent value is told as an empty one.
pub proof fn an_absent_value_is_empty(value: Seq<char>)
    ensures
        or_empty(Some(value)) == value,
        or_empty(None).len() == 0,
{
}

} // verus!
