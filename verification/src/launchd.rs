//! Service supervision. `ServiceManager` is the seam to the operating system.
use vstd::prelude::*;

use crate::error::{ErrorView, HadesError};
use crate::number;
use crate::number::parse_unsigned;
use crate::paths;
use crate::paths::join_path;
use crate::text;
use crate::text::{dec, trimmed};

verus! {

pub const DAEMON_LABEL: &'static str = "com.hades.daemon";

/// The text of the label.
pub open spec fn daemon_label() -> Seq<char> {
    DAEMON_LABEL@
}

/// What keeps the daemon running.
pub trait ServiceManager {
    /// Install (idempotently) and start the supervised daemon.
    fn install(&self, program: &str, log_dir: &str) -> Result<(), HadesError>;

    fn uninstall(&self) -> Result<(), HadesError>;

    fn is_loaded(&self) -> bool;

    fn kickstart(&self) -> Result<(), HadesError>;
}

/// Supervision by launchd: the property list and the commands that it takes.
#[derive(Debug, Clone, Copy, PartialEq, Eq, Structural)]
pub struct LaunchdManager;

/// A command that was run: did it succeed, and what did it complain about?
#[derive(Debug)]
pub struct CommandOutcome {
    pub ok: bool,
    pub stderr: String,
}

pub open spec fn plist_head() -> Seq<char> {
    "<?xml version=\"1.0\" encoding=\"UTF-8\"?>\n<!DOCTYPE plist PUBLIC \"-//Apple//DTD PLIST 1.0//EN\" \"http://www.apple.com/DTDs/PropertyList-1.0.dtd\">\n<plist version=\"1.0\">\n<dict>\n    <key>Label</key>\n    <string>"@
}

/// The property list of the daemon.
pub open spec fn plist(program: Seq<char>, log_dir: Seq<char>) -> Seq<char> {
    plist_head() + daemon_label()
        + "</string>\n    <key>ProgramArguments</key>\n    <array>\n        <string>"@ + program
        + "</string>\n    </array>\n    <key>RunAtLoad</key>\n    <true/>\n    <key>KeepAlive</key>\n    <true/>\n    <key>StandardOutPath</key>\n    <string>"@
        + paths::joined_path(log_dir, "hadesd.out.log"@)
        + "</string>\n    <key>StandardErrorPath</key>\n    <string>"@ + paths::joined_path(
        log_dir,
        "hadesd.err.log"@,
    ) + "</string>\n</dict>\n</plist>\n"@
}

/// The user number that `id -u` printed, or the first user's.
pub open spec fn user_number(id_output: Option<&str>) -> nat {
    match id_output {
        Some(s) => match number::unsigned(text::trim(s@), u32::MAX as nat) {
            Some(n) => n,
            None => 501,
        },
        None => 501,
    }
}

impl LaunchdManager {
    pub fn plist_path(home: &str) -> (r: String)
        ensures
            r@ == paths::joined_path(
                paths::joined_path(home@, "Library/LaunchAgents"@),
                daemon_label() + ".plist"@,
            ),
    {
        let dir = join_path(home, "Library/LaunchAgents");
        let file = DAEMON_LABEL.to_owned().concat(".plist");
        join_path(dir.as_str(), file.as_str())
    }

    /// launchctl addresses per-user agents as gui/<uid>.
    pub fn gui_domain(id_output: Option<&str>) -> (r: String)
        ensures
            r@ == "gui/"@ + text::decimal(user_number(id_output)),
    {
        let uid: u64 = match id_output {
            Some(s) => match parse_unsigned(trimmed(s).as_str(), u32::MAX as u64) {
                Some(n) => n,
                None => 501,
            },
            None => 501,
        };
        "gui/".to_owned().concat(dec(uid).as_str())
    }

    pub fn plist_contents(program: &str, log_dir: &str) -> (r: String)
        ensures
            r@ == plist(program@, log_dir@),
    {
        "<?xml version=\"1.0\" encoding=\"UTF-8\"?>\n<!DOCTYPE plist PUBLIC \"-//Apple//DTD PLIST 1.0//EN\" \"http://www.apple.com/DTDs/PropertyList-1.0.dtd\">\n<plist version=\"1.0\">\n<dict>\n    <key>Label</key>\n    <string>".to_owned()
            .concat(
            DAEMON_LABEL,
        ).concat(
            "</string>\n    <key>ProgramArguments</key>\n    <array>\n        <string>",
        ).concat(program).concat(
            "</string>\n    </array>\n    <key>RunAtLoad</key>\n    <true/>\n    <key>KeepAlive</key>\n    <true/>\n    <key>StandardOutPath</key>\n    <string>",
        ).concat(join_path(log_dir, "hadesd.out.log").as_str()).concat(
            "</string>\n    <key>StandardErrorPath</key>\n    <string>",
        ).concat(join_path(log_dir, "hadesd.err.log").as_str()).concat(
            "</string>\n</dict>\n</plist>\n",
        )
    }

    /// The service's name in a domain.
    pub fn service_target(domain: &str) -> (r: String)
        ensures
            r@ == domain@ + "/"@ + daemon_label(),
    {
        domain.to_owned().concat("/").concat(DAEMON_LABEL)
    }

    /// How an installation went: `bootstrap`, and where that failed the older
    /// `load`.
    pub fn install_outcome(
        bootstrap: &CommandOutcome,
        legacy: Option<&CommandOutcome>,
    ) -> (r: Result<(), HadesError>)
        ensures
            r is Ok <==> bootstrap.ok || (legacy is Some && legacy->0.ok),
            r matches Err(e) ==> e@ == ErrorView::Other(
                "launchctl bootstrap failed: "@ + text::trim(bootstrap.stderr@),
            ),
    {
        let saved = match legacy {
            Some(l) => l.ok,
            None => false,
        };
        if bootstrap.ok || saved {
            Ok(())
        } else {
            Err(
                HadesError::Other(
                    "launchctl bootstrap failed: ".to_owned().concat(
                        trimmed(bootstrap.stderr.as_str()).as_str(),
                    ),
                ),
            )
        }
    }

    pub fn kickstart_outcome(out: &CommandOutcome) -> (r: Result<(), HadesError>)
        ensures
            r is Ok <==> out.ok,
            r matches Err(e) ==> e@ == ErrorView::Other(
                "launchctl kickstart failed: "@ + text::trim(out.stderr@),
            ),
    {
        if out.ok {
            Ok(())
        } else {
            Err(
                HadesError::Other(
                    "launchctl kickstart failed: ".to_owned().concat(
                        trimmed(out.stderr.as_str()).as_str(),
                    ),
                ),
            )
        }
    }
}

/// The user's number is the one that was printed, with whatever white space around it; without
/// one it is that of the first user.
pub proof fn printed_users_count(printed: &str, n: nat, before: Seq<char>, after: Seq<char>)
    requires
        n <= u32::MAX,
        printed@ == before + text::decimal(n) + after,
        forall|i: int| 0 <= i < before.len() ==> text::is_space(#[trigger] before[i]),
        forall|i: int| 0 <= i < after.len() ==> text::is_space(#[trigger] after[i]),
    ensures
        user_number(Some(printed)) == n,
        user_number(None) == 501,
{
    let d = text::decimal(n);
    number::lemma_decimal_reads_back(n);
    number::decimal_is_unsigned(n, u32::MAX as nat);
    assert(text::is_digit(d[0]) && text::is_digit(d[d.len() - 1]));
    text::lemma_trim_around(before, d, after);
}

} // verus!
