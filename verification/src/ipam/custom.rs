//! The `custom` IPAM backend: the inventory is an operator-supplied script.
//!
//! The script answers with its standard output and its exit code:
//!
//! | Exit | stdout | Means |
//! | --- | --- | --- |
//! | `0` | one name per line | a known address with those names |
//! | `0` | empty | a known address entitled to nothing |
//! | [`UNKNOWN_ADDRESS_EXIT_CODE`] | ignored | an unknown address |
//! | anything else | the reason | an [`IpamError`] |

use crate::sorted::StringSet;
use crate::ipam::{
    insert_names, names_from_are_normal, normalized, with_names, with_names_is_union, AddressNames, Ipam, IpamError};
use crate::json::Json;
use crate::script::{complaint, ScriptHook, ScriptOutcome, ScriptRun};
use crate::debug::{quoted, quoted_words};
use crate::text::{cat2, cat3, lossy_text, pieces, split, texts, trimmed, utf8_lossy};
use vstd::prelude::*;
use vstd::string::*;

verus! {

/// The exit status meaning "this inventory holds no record of that address".
pub const UNKNOWN_ADDRESS_EXIT_CODE: i32 = 3;

/// The `[ipam.custom]` section.
#[derive(Debug, Clone, PartialEq, Eq, Default)]
pub struct CustomIpamConfig {
    pub script_path: String,
    pub args: Vec<String>,
}

/// Reports which names an operator script associates with an address.
#[derive(Clone, PartialEq, Eq)]
pub struct CustomIpamBackend {
    pub hook: ScriptHook,
}

/// What a script is told: environment variables, and an object on its stdin.
#[derive(Debug, PartialEq, Eq)]
pub struct ScriptRequest {
    pub envs: Vec<(String, String)>,
    pub payload: Json,
}

/// What the ending of a script says about an address.
pub open spec fn script_answer(run: ScriptRun) -> Result<Option<Set<Seq<char>>>, Seq<char>> {
    match run {
        ScriptRun::Failed(error) => Err("custom IPAM script "@ + error@),
        ScriptRun::Finished(outcome) => if outcome.succeeded() {
            Ok(Some(with_names(Set::empty(), pieces(lossy_text(outcome.stdout@), '\n'))))
        } else if outcome.code == Some(UNKNOWN_ADDRESS_EXIT_CODE) {
            Ok(None)
        } else {
            Err(complaint(outcome, "custom IPAM script"@))
        },
    }
}

/// The names that a script printed, one to a line. A blank line and a trailing
/// dot cost it nothing.
pub fn names_printed(stdout: &str) -> (r: AddressNames)
    ensures
        r@ == Some(with_names(Set::empty(), pieces(stdout@, '\n'))),
{
    let lines = split(stdout, '\n');
    let mut names = StringSet::new();
    insert_names(&mut names, &lines);
    AddressNames::Known(names)
}

impl CustomIpamBackend {
    /// What may be shown of a backend: the script's path.
    pub fn describe(&self) -> (r: String)
        ensures
            r@ == "CustomIpamBackend { script_path: "@ + quoted_words(self.hook.path@)
                + ", .. }"@,
    {
        cat3(
            "CustomIpamBackend { script_path: ",
            quoted(self.hook.path.as_str()).as_str(),
            ", .. }",
        )
    }

    /// Validates the configuration and builds the hook. Runs nothing.
    ///
    /// The script's deadline is the budget of the whole lookup, so that a
    /// script that outlives it is stopped.
    pub fn from_config(cfg: &CustomIpamConfig, timeout_ms: u64) -> (r: Result<
        CustomIpamBackend,
        String,
    >)
        ensures
            match r {
                Ok(backend) => {
                    &&& trimmed(cfg.script_path@).len() > 0
                    &&& backend.hook.path@ == cfg.script_path@
                    &&& texts(backend.hook.args@) == texts(cfg.args@)
                    &&& backend.hook.timeout_ms == timeout_ms
                },
                Err(e) => {
                    &&& trimmed(cfg.script_path@).len() == 0
                    &&& e@
                        == "ipam.custom.script_path is empty; provide a path to an executable script or point ipam.backend at another inventory"@
                },
            },
    {
        match ScriptHook::new(cfg.script_path.as_str(), &cfg.args, timeout_ms) {
            Some(hook) => Ok(CustomIpamBackend { hook }),
            None => Err(
                "ipam.custom.script_path is empty; provide a path to an executable script or point ipam.backend at another inventory".to_owned(),
            ),
        }
    }

    /// What the script is told about the address it is asked for: the same in
    /// its environment and on its stdin.
    pub fn request(&self, client_ip: &str) -> (r: ScriptRequest)
        ensures
            r.envs@.len() == 2,
            r.envs@[0].0@ == "ACME_IPAM_HOOK"@,
            r.envs@[0].1@ == "names_for"@,
            r.envs@[1].0@ == "ACME_IPAM_CLIENT_IP"@,
            r.envs@[1].1@ == client_ip@,
            r.payload matches Json::Object(members) && {
                &&& members@.len() == 2
                &&& members@[0].0@ == "hook"@
                &&& members@[0].1.text() == Some("names_for"@)
                &&& members@[1].0@ == "client_ip"@
                &&& members@[1].1.text() == Some(client_ip@)
            },
    {
        let mut envs: Vec<(String, String)> = Vec::new();
        envs.push(("ACME_IPAM_HOOK".to_owned(), "names_for".to_owned()));
        envs.push(("ACME_IPAM_CLIENT_IP".to_owned(), client_ip.to_owned()));
        let mut members: Vec<(String, Json)> = Vec::new();
        members.push(("hook".to_owned(), Json::Text("names_for".to_owned())));
        members.push(("client_ip".to_owned(), Json::Text(client_ip.to_owned())));
        ScriptRequest { envs, payload: Json::Object(members) }
    }

    /// The names the script gave, from how it ended.
    pub fn names_for(&self, run: ScriptRun) -> (r: Result<AddressNames, IpamError>)
        ensures
            match r {
                Ok(names) => script_answer(run) == Ok::<Option<Set<Seq<char>>>, Seq<char>>(names@),
                Err(e) => script_answer(run) == Err::<Option<Set<Seq<char>>>, Seq<char>>(e.0@),
            },
    {
        match run {
            ScriptRun::Failed(error) => Err(
                IpamError(cat2("custom IPAM script ", error.as_str())),
            ),
            ScriptRun::Finished(outcome) => {
                if outcome.success() {
                    let stdout = utf8_lossy(outcome.stdout.as_slice());
                    return Ok(names_printed(stdout.as_str()));
                }
                if let Some(code) = outcome.code {
                    if code == UNKNOWN_ADDRESS_EXIT_CODE {
                        return Ok(AddressNames::Unknown);
                    }
                }
                Err(IpamError(ScriptHook::detail(&outcome, "custom IPAM script")))
            },
        }
    }
}

/// A broken script never refuses anyone: an address is reported unknown only by
/// the reserved exit code, and everything but that and success is an error.
pub proof fn only_the_reserved_code_reports_an_unknown_address(run: ScriptRun)
    ensures
        script_answer(run) == Ok::<Option<Set<Seq<char>>>, Seq<char>>(None) <==> (
        run matches ScriptRun::Finished(outcome) && outcome.code == Some(
            UNKNOWN_ADDRESS_EXIT_CODE,
        )),
        script_answer(run) is Ok <==> (run matches ScriptRun::Finished(outcome) && (
        outcome.succeeded() || outcome.code == Some(UNKNOWN_ADDRESS_EXIT_CODE))),
{
}

/// Every name that a script reports is in normal form.
pub proof fn reported_names_are_normal(run: ScriptRun, names: Set<Seq<char>>)
    requires
        script_answer(run) == Ok::<Option<Set<Seq<char>>>, Seq<char>>(Some(names)),
    ensures
        normalized(names),
{
    let lines = pieces(lossy_text(run->Finished_0.stdout@), '\n');
    with_names_is_union(Set::empty(), lines);
    names_from_are_normal(lines);
}

impl Ipam for CustomIpamBackend {
    open spec fn product(&self) -> Seq<char> {
        "the custom IPAM script"@
    }

    fn name(&self) -> (r: &'static str) {
        "the custom IPAM script"
    }
}

/// A script answers by how it ends: with 0 for the names it printed, one to a line,
/// with 3 for an address it does not know, and with anything else for a failure.
pub proof fn a_script_answers_by_how_it_ends(outcome: ScriptOutcome, error: String, name: Seq<char>)
    ensures
        outcome.code == Some(0i32) ==> script_answer(ScriptRun::Finished(outcome)) is Ok
            && script_answer(ScriptRun::Finished(outcome))->Ok_0 is Some,
        outcome.code == Some(0i32) ==> (script_answer(
            ScriptRun::Finished(outcome),
        )->Ok_0->Some_0.contains(name) <==> name.len() > 0 && exists|i: int|
            0 <= i < pieces(lossy_text(outcome.stdout@), '\n').len() && name == crate::ipam::normal(
                #[trigger] pieces(lossy_text(outcome.stdout@), '\n')[i],
            )),
        outcome.code == Some(3i32) ==> script_answer(ScriptRun::Finished(outcome)) == Ok::<
            Option<Set<Seq<char>>>,
            Seq<char>,
        >(None),
        outcome.code != Some(0i32) && outcome.code != Some(3i32) ==> script_answer(
            ScriptRun::Finished(outcome),
        ) == Err::<Option<Set<Seq<char>>>, Seq<char>>(complaint(outcome, "custom IPAM script"@)),
        script_answer(ScriptRun::Failed(error)) == Err::<Option<Set<Seq<char>>>, Seq<char>>(
            "custom IPAM script "@ + error@,
        ),
{
    let lines = pieces(lossy_text(outcome.stdout@), '\n');
    with_names_is_union(Set::empty(), lines);
}

/// The script is called what it is.
pub proof fn the_product_is_the_script(backend: CustomIpamBackend)
    ensures
        backend.product() == "the custom IPAM script"@,
{
}

} // verus!
