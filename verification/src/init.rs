//! Recording a project's resolved arguments in the config store.
//!
//! The interactive prompting itself is I/O and lives with the caller; this
//! module owns the two decisions in it: how a reply and a stored default
//! resolve to one value, and which keys the resolved bundle is stored under.
use vstd::prelude::*;

use crate::config::Config;
use crate::config::spec_insert;
use crate::text::spec_trim;
use crate::text::trim;

verus! {

/// Resolves one prompt reply against the stored default: a non-blank reply,
/// trimmed, wins; a blank reply falls back to the default, and yields
/// nothing when there is none.
pub fn resolve_input(input: &str, default: Option<&String>) -> (r: Option<String>)
    ensures
        match r {
            Some(v) => v@ == if spec_trim(input@).len() > 0 {
                spec_trim(input@)
            } else {
                match default {
                    Some(d) => d@,
                    None => Seq::<char>::empty(),
                }
            } && (spec_trim(input@).len() > 0 || default is Some),
            None => spec_trim(input@).len() == 0 && default is None,
        },
{
    let t = trim(input);
    if t.unicode_len() > 0 {
        Some(t)
    } else {
        match default {
            Some(d) => Some(d.clone()),
            None => None,
        }
    }
}

/// Records the project's arguments between invocations.
pub struct InitCommand;

impl InitCommand {
    /// A fresh init command.
    pub fn new() -> (r: InitCommand) {
        InitCommand
    }

    /// Stores the resolved argument bundle under its well-known keys.
    pub fn apply_args(config: &mut Config, host: &str, name: &str, url: &str, port: &str)
        requires
            old(config).wf(),
        ensures
            final(config).wf(),
            final(config)@ == spec_insert(
                spec_insert(
                    spec_insert(spec_insert(old(config)@, "VPS_HOST"@, host@), "APP_NAME"@, name@),
                    "APP_URL"@,
                    url@,
                ),
                "APP_PORT"@,
                port@,
            ),
            final(config).path_view() == old(config).path_view(),
    {
        config.set(String::from_str("VPS_HOST"), host.to_owned());
        config.set(String::from_str("APP_NAME"), name.to_owned());
        config.set(String::from_str("APP_URL"), url.to_owned());
        config.set(String::from_str("APP_PORT"), port.to_owned());
    }
}

} // verus!
