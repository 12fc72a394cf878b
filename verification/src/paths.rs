//! Canonical on-disk layout under `~/.hades/`.
use vstd::prelude::*;

use crate::split;
use crate::text::has_suffix;
use crate::text;

verus! {

/// A path with one more component.
pub open spec fn joined_path(base: Seq<char>, name: Seq<char>) -> Seq<char> {
    if base.len() == 0 || text::ends_with(base, "/"@) {
        base + name
    } else {
        base + "/"@ + name
    }
}

pub fn join_path(base: &str, name: &str) -> (r: String)
    ensures
        r@ == joined_path(base@, name@),
{
    if base.is_empty() || has_suffix(base, "/") {
        base.to_owned().concat(name)
    } else {
        base.to_owned().concat("/").concat(name)
    }
}

#[derive(Debug)]
pub struct HadesPaths {
    pub root: String,
}

impl HadesPaths {
    /// `HADES_HOME` where it is set, else `.hades` in the home directory. Without
    /// either there is nowhere to keep state.
    pub fn new(hades_home: Option<String>, home: Option<String>) -> (r: Option<HadesPaths>)
        ensures
            r is Some <==> hades_home is Some || home is Some,
            hades_home matches Some(h) ==> r->0.root@ == h@,
            hades_home is None && home is Some ==> r->0.root@ == joined_path(home->0@, ".hades"@),
    {
        match hades_home {
            Some(root) => Some(HadesPaths { root }),
            None => match home {
                Some(h) => Some(HadesPaths { root: join_path(h.as_str(), ".hades") }),
                None => None,
            },
        }
    }

    pub fn config(&self) -> (r: String)
        ensures
            r@ == joined_path(self.root@, "config.toml"@),
    {
        join_path(self.root.as_str(), "config.toml")
    }

    pub fn state_dir(&self) -> (r: String)
        ensures
            r@ == joined_path(self.root@, "state"@),
    {
        join_path(self.root.as_str(), "state")
    }

    pub fn apps_state(&self) -> (r: String)
        ensures
            r@ == joined_path(joined_path(self.root@, "state"@), "apps.json"@),
    {
        join_path(self.state_dir().as_str(), "apps.json")
    }

    pub fn registry(&self) -> (r: String)
        ensures
            r@ == joined_path(joined_path(self.root@, "state"@), "registry.json"@),
    {
        join_path(self.state_dir().as_str(), "registry.json")
    }

    pub fn fleet_state(&self) -> (r: String)
        ensures
            r@ == joined_path(joined_path(self.root@, "state"@), "fleet.json"@),
    {
        join_path(self.state_dir().as_str(), "fleet.json")
    }

    pub fn claims_state(&self) -> (r: String)
        ensures
            r@ == joined_path(joined_path(self.root@, "state"@), "claims.json"@),
    {
        join_path(self.state_dir().as_str(), "claims.json")
    }

    pub fn ledger_dir(&self) -> (r: String)
        ensures
            r@ == joined_path(self.root@, "ledger"@),
    {
        join_path(self.root.as_str(), "ledger")
    }

    pub fn uptime_ledger(&self) -> (r: String)
        ensures
            r@ == joined_path(joined_path(self.root@, "ledger"@), "uptime.jsonl"@),
    {
        join_path(self.ledger_dir().as_str(), "uptime.jsonl")
    }

    pub fn events_ledger(&self) -> (r: String)
        ensures
            r@ == joined_path(joined_path(self.root@, "ledger"@), "events.jsonl"@),
    {
        join_path(self.ledger_dir().as_str(), "events.jsonl")
    }

    pub fn heartbeat(&self) -> (r: String)
        ensures
            r@ == joined_path(joined_path(self.root@, "ledger"@), "heartbeat"@),
    {
        join_path(self.ledger_dir().as_str(), "heartbeat")
    }

    pub fn metrics_dir(&self) -> (r: String)
        ensures
            r@ == joined_path(self.root@, "metrics"@),
    {
        join_path(self.root.as_str(), "metrics")
    }

    pub fn battery_metrics(&self) -> (r: String)
        ensures
            r@ == joined_path(joined_path(self.root@, "metrics"@), "battery.jsonl"@),
    {
        join_path(self.metrics_dir().as_str(), "battery.jsonl")
    }

    pub fn resource_metrics(&self) -> (r: String)
        ensures
            r@ == joined_path(joined_path(self.root@, "metrics"@), "resources.jsonl"@),
    {
        join_path(self.metrics_dir().as_str(), "resources.jsonl")
    }

    pub fn logs_dir(&self) -> (r: String)
        ensures
            r@ == joined_path(self.root@, "logs"@),
    {
        join_path(self.root.as_str(), "logs")
    }

    /// The directories that must exist before anything is written, parents first.
    pub fn ensure_dirs(&self) -> (r: Vec<String>)
        ensures
            split::views(r@) == seq![
                self.root@,
                joined_path(self.root@, "state"@),
                joined_path(self.root@, "ledger"@),
                joined_path(self.root@, "metrics"@),
                joined_path(self.root@, "logs"@),
            ],
    {
        let mut dirs: Vec<String> = Vec::new();
        dirs.push(self.root.clone());
        dirs.push(self.state_dir());
        dirs.push(self.ledger_dir());
        dirs.push(self.metrics_dir());
        dirs.push(self.logs_dir());
        assert(split::views(dirs@) =~= seq![
            self.root@,
            joined_path(self.root@, "state"@),
            joined_path(self.root@, "ledger"@),
            joined_path(self.root@, "metrics"@),
            joined_path(self.root@, "logs"@),
        ]);
        dirs
    }
}

/// Different files of one directory have different paths, and all of them lie
/// below the root that they were made from.
pub proof fn paths_keep_names_apart(base: Seq<char>, a: Seq<char>, b: Seq<char>)
    requires
        a != b,
    ensures
        joined_path(base, a) != joined_path(base, b),
        joined_path(base, a).take(base.len() as int) == base,
{
    let p = joined_path(base, a);
    let q = joined_path(base, b);
    let pre = if base.len() == 0 || text::ends_with(base, "/"@) {
        base
    } else {
        base + "/"@
    };
    assert(p =~= pre + a);
    assert(q =~= pre + b);
    assert(p.skip(pre.len() as int) =~= a);
    assert(q.skip(pre.len() as int) =~= b);
    assert(p.take(base.len() as int) =~= base);
}

} // verus!
